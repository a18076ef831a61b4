//! Communication channel models for multi-device clusters.
//!
//! Models the intra-node switch fabric and the inter-node fabric,
//! including point-to-point transfer time and the analytical formulas for
//! collective operations (Ring, Tree and Direct AllReduce, Ring AllGather,
//! Tree Broadcast).
//!
//! Unit convention: 1 GB/s = 10^9 bytes/s = 10^3 bytes/us. Times are exact
//! rationals in microseconds; latencies are stored in whole nanoseconds
//! and bandwidths in whole GB/s, which the stock link profiles fit.

use vstd::prelude::*;

verus! {

use crate::rat::{Rat, rat_le};

/// Links a cost formula can be computed over without its 128-bit
/// intermediate products overflowing: at least 1 GB/s and at most
/// 1 000 000 GB/s, with at most a second of latency.
pub open spec fn link_fits(bandwidth_gb_s: u64, latency_ns: u64) -> bool {
    1 <= bandwidth_gb_s <= 1_000_000 && latency_ns <= 1_000_000_000
}

/// Largest per-device collective payload the exact 128-bit arithmetic
/// admits: a pebibyte.
pub const MAX_COLLECTIVE_BYTES: u64 = 0x4_0000_0000_0000;

/// Intra-node link configuration: all-to-all within the node via the
/// node's switch, every device at full bandwidth simultaneously.
#[derive(Debug, Clone, Copy, PartialEq, Eq, Structural)]
pub struct NVLinkConfig {
    /// Peak bidirectional bandwidth per device in GB/s.
    pub bandwidth_gb_s: u64,
    /// Point-to-point latency in nanoseconds.
    pub latency_ns: u64,
}

impl NVLinkConfig {
    pub open spec fn spec_h100() -> NVLinkConfig {
        NVLinkConfig { bandwidth_gb_s: 900, latency_ns: 1000 }
    }

    pub open spec fn spec_a100() -> NVLinkConfig {
        NVLinkConfig { bandwidth_gb_s: 600, latency_ns: 1000 }
    }

    /// Hopper-generation link: 900 GB/s bidirectional per device.
    #[verifier::when_used_as_spec(spec_h100)]
    pub fn h100() -> (c: NVLinkConfig)
        ensures
            c == (NVLinkConfig { bandwidth_gb_s: 900u64, latency_ns: 1000u64 }),
            link_fits(c.bandwidth_gb_s, c.latency_ns),
    {
        NVLinkConfig { bandwidth_gb_s: 900, latency_ns: 1000 }
    }

    /// Ampere-generation link: 600 GB/s bidirectional per device.
    #[verifier::when_used_as_spec(spec_a100)]
    pub fn a100() -> (c: NVLinkConfig)
        ensures
            c == (NVLinkConfig { bandwidth_gb_s: 600u64, latency_ns: 1000u64 }),
            link_fits(c.bandwidth_gb_s, c.latency_ns),
    {
        NVLinkConfig { bandwidth_gb_s: 600, latency_ns: 1000 }
    }
}

/// Inter-node fabric configuration, fat-tree topology.
#[derive(Debug, Clone, Copy, PartialEq, Eq, Structural)]
pub struct InfiniBandConfig {
    /// Per-link bandwidth in GB/s.
    pub bandwidth_gb_s: u64,
    /// End-to-end latency in nanoseconds (including switch hops).
    pub latency_ns: u64,
    /// Number of fat-tree spine levels (informational).
    pub spine_levels: u32,
}

impl InfiniBandConfig {
    pub open spec fn spec_hdr() -> InfiniBandConfig {
        InfiniBandConfig { bandwidth_gb_s: 25, latency_ns: 2000, spine_levels: 2 }
    }

    pub open spec fn spec_ndr() -> InfiniBandConfig {
        InfiniBandConfig { bandwidth_gb_s: 50, latency_ns: 2000, spine_levels: 2 }
    }

    pub open spec fn spec_xdr() -> InfiniBandConfig {
        InfiniBandConfig { bandwidth_gb_s: 100, latency_ns: 1500, spine_levels: 2 }
    }

    /// HDR: 200 Gb/s = 25 GB/s per link.
    #[verifier::when_used_as_spec(spec_hdr)]
    pub fn hdr() -> (c: InfiniBandConfig)
        ensures
            c == (InfiniBandConfig { bandwidth_gb_s: 25u64, latency_ns: 2000u64, spine_levels: 2u32 }),
            link_fits(c.bandwidth_gb_s, c.latency_ns),
    {
        InfiniBandConfig { bandwidth_gb_s: 25, latency_ns: 2000, spine_levels: 2 }
    }

    /// NDR: 400 Gb/s = 50 GB/s per link.
    #[verifier::when_used_as_spec(spec_ndr)]
    pub fn ndr() -> (c: InfiniBandConfig)
        ensures
            c == (InfiniBandConfig { bandwidth_gb_s: 50u64, latency_ns: 2000u64, spine_levels: 2u32 }),
            link_fits(c.bandwidth_gb_s, c.latency_ns),
    {
        InfiniBandConfig { bandwidth_gb_s: 50, latency_ns: 2000, spine_levels: 2 }
    }

    /// XDR: 800 Gb/s = 100 GB/s per link.
    #[verifier::when_used_as_spec(spec_xdr)]
    pub fn xdr() -> (c: InfiniBandConfig)
        ensures
            c == (InfiniBandConfig { bandwidth_gb_s: 100u64, latency_ns: 1500u64, spine_levels: 2u32 }),
            link_fits(c.bandwidth_gb_s, c.latency_ns),
    {
        InfiniBandConfig { bandwidth_gb_s: 100, latency_ns: 1500, spine_levels: 2 }
    }
}

/// Which physical channel a transfer used.
#[derive(Debug, Clone, Copy, PartialEq, Eq, Structural)]
pub enum TransferChannel {
    /// No transfer needed (source equals destination).
    SameDevice,
    /// Intra-node, via the node's switch.
    NVLink,
    /// Inter-node, via the fabric.
    InfiniBand,
}

impl TransferChannel {
    /// The channel name as emitted in metrics snapshots.
    pub fn label(&self) -> (r: &'static str)
        ensures
            r@ == match *self {
                TransferChannel::SameDevice => "same-device"@,
                TransferChannel::NVLink => "NVLink"@,
                TransferChannel::InfiniBand => "InfiniBand"@,
            },
    {
        match self {
            TransferChannel::SameDevice => "same-device",
            TransferChannel::NVLink => "NVLink",
            TransferChannel::InfiniBand => "InfiniBand",
        }
    }
}

/// Effective bandwidth of a transfer: infinite for an instantaneous one.
#[derive(Debug, Clone, Copy, PartialEq, Eq, Structural)]
pub enum EffectiveBandwidth {
    /// The transfer took no time (same device).
    Infinite,
    /// Exact bandwidth in GB/s.
    Finite(Rat),
}

/// Result of a simulated point-to-point transfer.
#[derive(Debug, Clone, Copy, PartialEq, Eq, Structural)]
pub struct TransferStats {
    /// Number of bytes transferred.
    pub bytes: u64,
    /// Simulated transfer time in microseconds.
    pub time_us: Rat,
    /// Effective bandwidth achieved in GB/s.
    pub effective_bandwidth_gb_s: EffectiveBandwidth,
    /// Channel used.
    pub channel: TransferChannel,
}

impl TransferStats {
    /// An instantaneous zero-byte transfer, as a spec value.
    pub open spec fn spec_zero(channel: TransferChannel) -> TransferStats {
        TransferStats {
            bytes: 0,
            time_us: Rat { num: 0, den: 1 },
            effective_bandwidth_gb_s: EffectiveBandwidth::Infinite,
            channel,
        }
    }

    /// An instantaneous zero-byte transfer.
    #[verifier::when_used_as_spec(spec_zero)]
    pub fn zero(channel: TransferChannel) -> (t: TransferStats)
        ensures
            t == (TransferStats {
                bytes: 0u64,
                time_us: Rat { num: 0u128, den: 1u128 },
                effective_bandwidth_gb_s: EffectiveBandwidth::Infinite,
                channel,
            }),
    {
        TransferStats {
            bytes: 0,
            time_us: Rat { num: 0, den: 1 },
            effective_bandwidth_gb_s: EffectiveBandwidth::Infinite,
            channel,
        }
    }
}

/// Exact transfer time in microseconds:
/// `latency + bytes / bandwidth`, and 0 for an empty transfer.
pub open spec fn spec_transfer_time(bytes: u64, bandwidth_gb_s: u64, latency_ns: u64) -> Rat {
    if bytes == 0 {
        Rat { num: 0u128, den: 1u128 }
    } else {
        Rat {
            num: (latency_ns * bandwidth_gb_s + bytes) as u128,
            den: (1000 * bandwidth_gb_s) as u128,
        }
    }
}

/// Compute the simulated transfer time in microseconds:
/// `time_us = latency_us + bytes / bandwidth_bytes_per_us`, exactly 0 when
/// no bytes move, and never below the latency otherwise.
pub fn transfer_time_us(bytes: u64, bandwidth_gb_s: u64, latency_ns: u64) -> (r: Rat)
    requires
        bandwidth_gb_s >= 1,
    ensures
        r == spec_transfer_time(bytes, bandwidth_gb_s, latency_ns),
        r.wf(),
        bytes == 0 ==> r.is_int(0),
        bytes > 0 ==> rat_le(Rat { num: latency_ns as u128, den: 1000u128 }, r),
{
    if bytes == 0 {
        let r = Rat { num: 0, den: 1 };
        return r;
    }
    proof {
        assert(latency_ns * bandwidth_gb_s <= u64::MAX * u64::MAX) by (nonlinear_arith)
            requires
                latency_ns <= u64::MAX && bandwidth_gb_s <= u64::MAX,
        ;
        assert(u64::MAX * u64::MAX + u64::MAX < u128::MAX) by (nonlinear_arith);
    }
    let num: u128 = (latency_ns as u128) * (bandwidth_gb_s as u128) + (bytes as u128);
    let den: u128 = 1000u128 * (bandwidth_gb_s as u128);
    let r = Rat { num, den };
    proof {
        // latency_us = latency_ns / 1000 <= r
        assert(latency_ns as int * (1000 * bandwidth_gb_s) <= (latency_ns * bandwidth_gb_s
            + bytes) * 1000) by (nonlinear_arith)
            requires
                bytes >= 0 && latency_ns >= 0 && bandwidth_gb_s >= 1,
        ;
    }
    r
}

/// Exact effective bandwidth in GB/s of moving `bytes` in `t`
/// microseconds: `bytes / (t * 1000)`.
pub open spec fn spec_effective_bandwidth(bytes: u64, t: Rat) -> Rat {
    Rat { num: (bytes * t.den) as u128, den: (t.num * 1000) as u128 }
}

/// Compute the effective bandwidth in GB/s from bytes and transfer time;
/// an instantaneous transfer has infinite bandwidth.
pub fn effective_bandwidth_gb_s(bytes: u64, time_us: &Rat) -> (r: EffectiveBandwidth)
    requires
        time_us.wf(),
        bytes * time_us.den <= u128::MAX,
        time_us.num * 1000 <= u128::MAX,
    ensures
        time_us.is_int(0) ==> r is Infinite,
        !time_us.is_int(0) ==> r == EffectiveBandwidth::Finite(
            spec_effective_bandwidth(bytes, *time_us),
        ) && spec_effective_bandwidth(bytes, *time_us).wf(),
{
    proof {
        assert(time_us.num == 0 * time_us.den <==> time_us.num == 0) by (nonlinear_arith)
            requires
                time_us.den >= 1,
        ;
    }
    if time_us.num == 0 {
        EffectiveBandwidth::Infinite
    } else {
        EffectiveBandwidth::Finite(
            Rat { num: (bytes as u128) * time_us.den, den: time_us.num * 1000 },
        )
    }
}

/// `ceil(log2(n))`: the number of halving steps to reduce `n` to 1.
pub open spec fn ceil_log2(n: int) -> int
    decreases n,
{
    if n <= 1 {
        0
    } else {
        1 + ceil_log2((n + 1) / 2)
    }
}

pub proof fn lemma_ceil_log2_bounds(n: int)
    requires
        n >= 1,
    ensures
        0 <= ceil_log2(n),
        n >= 2 ==> ceil_log2(n) < n,
    decreases n,
{
    if n >= 2 {
        lemma_ceil_log2_bounds((n + 1) / 2);
    }
}

/// The number of tree steps for `n` participants: `ceil(log2(n))`.
pub fn ceil_log2_usize(n: usize) -> (r: usize)
    ensures
        r == ceil_log2(n as int),
{
    proof {
        if n >= 1 {
            lemma_ceil_log2_bounds(n as int);
        }
    }
    let mut m: usize = n;
    let mut steps: usize = 0;
    while m > 1
        invariant
            1 <= m <= n || (n == 0 && m == 0),
            steps + ceil_log2(m as int) == ceil_log2(n as int),
            steps <= ceil_log2(n as int),
        decreases m,
    {
        let m2: usize = (m - 1) / 2 + 1;
        proof {
            lemma_ceil_log2_bounds(n as int);
            lemma_ceil_log2_bounds(m as int);
            assert(m2 as int == (m as int + 1) / 2);
            lemma_ceil_log2_bounds(m2 as int);
            assert(ceil_log2(m as int) == 1 + ceil_log2(m2 as int));
        }
        m = m2;
        steps = steps + 1;
    }
    steps
}

/// AllReduce algorithm selection.
///
/// AllReduce semantics: every device starts with a local buffer of
/// `bytes_per_gpu` bytes; afterwards every device holds the element-wise
/// reduction across all devices.
#[derive(Debug, Clone, Copy, PartialEq, Eq, Structural)]
pub enum AllReduceAlgorithm {
    /// Ring: two phases (reduce-scatter + all-gather), each N-1 steps;
    /// bandwidth-optimal for large payloads.
    Ring,
    /// Recursive halving/doubling: latency-optimal, log2(N) steps each way.
    Tree,
    /// Naive: reduce everything to one root, then broadcast back.
    Direct,
}

impl AllReduceAlgorithm {
    /// The algorithm name as emitted in metrics snapshots.
    pub fn label(&self) -> (r: &'static str)
        ensures
            r@ == match *self {
                AllReduceAlgorithm::Ring => "Ring"@,
                AllReduceAlgorithm::Tree => "Tree"@,
                AllReduceAlgorithm::Direct => "Direct"@,
            },
    {
        match self {
            AllReduceAlgorithm::Ring => "Ring",
            AllReduceAlgorithm::Tree => "Tree",
            AllReduceAlgorithm::Direct => "Direct",
        }
    }
}

/// Which collective operation a result describes. A broadcast remembers
/// its source device as (node index, local device index).
#[derive(Debug, Clone, Copy, PartialEq, Eq, Structural)]
pub enum CollectiveOp {
    AllReduce,
    AllGather,
    Broadcast { src_node: usize, src_gpu: usize },
}

impl CollectiveOp {
    /// The operation name as emitted in metrics snapshots.
    pub fn label(&self) -> (r: &'static str)
        ensures
            r@ == match *self {
                CollectiveOp::AllReduce => "AllReduce"@,
                CollectiveOp::AllGather => "AllGather"@,
                CollectiveOp::Broadcast { .. } => "Broadcast"@,
            },
    {
        match self {
            CollectiveOp::AllReduce => "AllReduce",
            CollectiveOp::AllGather => "AllGather",
            CollectiveOp::Broadcast { .. } => "Broadcast",
        }
    }
}

/// Result of a simulated collective operation.
#[derive(Debug, Clone, Copy, PartialEq, Eq, Structural)]
pub struct CollectiveStats {
    /// The operation performed.
    pub operation: CollectiveOp,
    /// Algorithm used (named after the AllReduce variants; AllGather runs
    /// Ring, Broadcast runs Tree).
    pub algorithm: AllReduceAlgorithm,
    /// Number of devices participating.
    pub num_gpus: usize,
    /// Bytes each device contributes.
    pub bytes_per_gpu: u64,
    /// Simulated wall-clock time in microseconds.
    pub time_us: Rat,
    /// Bus bandwidth in GB/s: the per-link throughput metric
    /// (`2 (N-1)/N * B / time` for AllReduce, payload over time for the
    /// others; infinite only for an instantaneous non-AllReduce).
    pub bus_bandwidth_gb_s: EffectiveBandwidth,
    /// Bandwidth efficiency `bus_bw / peak_bw`, clamped into [0, 1].
    pub efficiency: Rat,
}

/// Ring AllReduce time in microseconds, exactly
/// `2 (N-1)/N * B/bw + 2 (N-1) lat`, as the single fraction
/// `(2 (N-1) B + 2 (N-1) lat_ns n bw) / (1000 n bw)`.
pub open spec fn spec_ring_allreduce_time(n: int, bytes: u64, bw: u64, lat_ns: u64) -> Rat {
    Rat {
        num: (2 * (n - 1) * bytes + 2 * (n - 1) * lat_ns * n * bw) as u128,
        den: (1000 * n * bw) as u128,
    }
}

/// Tree AllReduce time in microseconds, exactly
/// `2 ceil(log2 N) * (B/bw + lat)`.
pub open spec fn spec_tree_allreduce_time(n: int, bytes: u64, bw: u64, lat_ns: u64) -> Rat {
    Rat {
        num: (2 * ceil_log2(n) * (bytes + lat_ns * bw)) as u128,
        den: (1000 * bw) as u128,
    }
}

/// Direct AllReduce time in microseconds, exactly
/// `2 (N-1) * (B/bw + lat)`.
pub open spec fn spec_direct_allreduce_time(n: int, bytes: u64, bw: u64, lat_ns: u64) -> Rat {
    Rat {
        num: (2 * (n - 1) * (bytes + lat_ns * bw)) as u128,
        den: (1000 * bw) as u128,
    }
}

/// Ring AllGather time in microseconds, exactly
/// `(N-1)/N * (N B)/bw + (N-1) lat`.
pub open spec fn spec_all_gather_time(n: int, bytes: u64, bw: u64, lat_ns: u64) -> Rat {
    Rat {
        num: ((n - 1) * bytes + (n - 1) * lat_ns * bw) as u128,
        den: (1000 * bw) as u128,
    }
}

/// Tree Broadcast time in microseconds, exactly
/// `ceil(log2 N) * (B/bw + lat)`.
pub open spec fn spec_broadcast_time(n: int, bytes: u64, bw: u64, lat_ns: u64) -> Rat {
    Rat {
        num: (ceil_log2(n) * (bytes + lat_ns * bw)) as u128,
        den: (1000 * bw) as u128,
    }
}

/// The AllReduce bus-bandwidth reporting metric,
/// `2 (N-1)/N * B / (time * 1000)` in GB/s, or 0 for a zero-time
/// operation.
pub open spec fn spec_allreduce_bus_bw(n: int, bytes: u64, t: Rat) -> Rat {
    if t.num == 0 {
        Rat { num: 0u128, den: 1u128 }
    } else {
        Rat { num: (2 * (n - 1) * bytes * t.den) as u128, den: (n * t.num * 1000) as u128 }
    }
}

/// Bandwidth efficiency: `bus_bw / peak_bw`, clamped into [0, 1].
pub open spec fn spec_efficiency(bus: Rat, peak_bw: u64) -> Rat {
    if bus.num <= bus.den * peak_bw {
        Rat { num: bus.num, den: (bus.den * peak_bw) as u128 }
    } else {
        Rat { num: (bus.den * peak_bw) as u128, den: (bus.den * peak_bw) as u128 }
    }
}

/// Bandwidth efficiency of a possibly-infinite bus bandwidth: an
/// instantaneous operation clamps to full efficiency.
pub open spec fn spec_eff_of_bw(bus: EffectiveBandwidth, peak_bw: u64) -> Rat {
    match bus {
        EffectiveBandwidth::Infinite => Rat { num: 1u128, den: 1u128 },
        EffectiveBandwidth::Finite(b) => spec_efficiency(b, peak_bw),
    }
}

/// AllReduce Ring time never decreases when the payload grows or when
/// more devices participate.
pub proof fn lemma_ring_time_monotonic(
    n1: int,
    n2: int,
    b1: u64,
    b2: u64,
    bw: u64,
    lat_ns: u64,
)
    requires
        1 <= n1 <= n2 <= 16384,
        b1 <= b2,
        link_fits(bw, lat_ns),
    ensures
        rat_le(
            spec_ring_allreduce_time(n1, b1, bw, lat_ns),
            spec_ring_allreduce_time(n2, b2, bw, lat_ns),
        ),
{
    let x1 = 2 * (n1 - 1) * b1 + 2 * (n1 - 1) * lat_ns * n1 * bw;
    let x2 = 2 * (n2 - 1) * b2 + 2 * (n2 - 1) * lat_ns * n2 * bw;
    let d1 = 1000 * n1 * bw;
    let d2 = 1000 * n2 * bw;
    // (N-1)/N grows with N ...
    assert((n1 - 1) * n2 <= (n2 - 1) * n1) by (nonlinear_arith)
        requires
            1 <= n1 <= n2,
    ;
    // ... so the payload term and the latency term each grow.
    assert((n1 - 1) * b1 * n2 <= (n2 - 1) * b2 * n1) by (nonlinear_arith)
        requires
            1 <= n1 <= n2,
            0 <= b1 <= b2,
            (n1 - 1) * n2 <= (n2 - 1) * n1,
    ;
    let p1 = (n1 - 1) * b1;
    let q1 = (n1 - 1) * lat_ns * n1 * bw;
    let p2 = (n2 - 1) * b2;
    let q2 = (n2 - 1) * lat_ns * n2 * bw;
    assert(x1 == 2 * p1 + 2 * q1 && x2 == 2 * p2 + 2 * q2) by (nonlinear_arith)
        requires
            x1 == 2 * (n1 - 1) * b1 + 2 * (n1 - 1) * lat_ns * n1 * bw,
            x2 == 2 * (n2 - 1) * b2 + 2 * (n2 - 1) * lat_ns * n2 * bw,
            p1 == (n1 - 1) * b1,
            q1 == (n1 - 1) * lat_ns * n1 * bw,
            p2 == (n2 - 1) * b2,
            q2 == (n2 - 1) * lat_ns * n2 * bw,
    ;
    assert(p1 * n2 <= p2 * n1) by (nonlinear_arith)
        requires
            p1 == (n1 - 1) * b1,
            p2 == (n2 - 1) * b2,
            1 <= n1 <= n2,
            0 <= b1 <= b2,
            (n1 - 1) * n2 <= (n2 - 1) * n1,
    ;
    assert(q1 * n2 <= q2 * n1) by (nonlinear_arith)
        requires
            q1 == (n1 - 1) * lat_ns * n1 * bw,
            q2 == (n2 - 1) * lat_ns * n2 * bw,
            1 <= n1 <= n2,
            bw >= 1,
            lat_ns >= 0,
    ;
    assert(x1 * d2 == 2000 * bw * (p1 * n2) + 2000 * bw * (q1 * n2)) by (nonlinear_arith)
        requires
            x1 == 2 * p1 + 2 * q1,
            d2 == 1000 * n2 * bw,
    ;
    assert(x2 * d1 == 2000 * bw * (p2 * n1) + 2000 * bw * (q2 * n1)) by (nonlinear_arith)
        requires
            x2 == 2 * p2 + 2 * q2,
            d1 == 1000 * n1 * bw,
    ;
    assert(x1 * d2 <= x2 * d1) by (nonlinear_arith)
        requires
            bw >= 1,
            p1 * n2 <= p2 * n1,
            q1 * n2 <= q2 * n1,
            x1 * d2 == 2000 * bw * (p1 * n2) + 2000 * bw * (q1 * n2),
            x2 * d1 == 2000 * bw * (p2 * n1) + 2000 * bw * (q2 * n1),
    ;
    assert(x1 as u128 == x1 && x2 as u128 == x2 && d1 as u128 == d1 && d2 as u128 == d2)
        by (nonlinear_arith)
        requires
            x1 == 2 * (n1 - 1) * b1 + 2 * (n1 - 1) * lat_ns * n1 * bw,
            x2 == 2 * (n2 - 1) * b2 + 2 * (n2 - 1) * lat_ns * n2 * bw,
            d1 == 1000 * n1 * bw,
            d2 == 1000 * n2 * bw,
            1 <= n1 <= n2 <= 16384,
            0 <= b1 <= b2 <= u64::MAX,
            1 <= bw <= 1_000_000,
            0 <= lat_ns <= 1_000_000_000,
    ;
}

/// The 128-bit intermediates of the collective formulas fit, given a link
/// within `link_fits` and at most 16384 devices.
pub proof fn lemma_collective_bounds(n: int, bytes: u64, bw: u64, lat_ns: u64)
    requires
        1 <= n <= 16384,
        bytes <= MAX_COLLECTIVE_BYTES,
        link_fits(bw, lat_ns),
    ensures
        0 <= 2 * (n - 1) * bytes + 2 * (n - 1) * lat_ns * n * bw < u128::MAX,
        0 <= 1000 * n * bw < u128::MAX,
        0 <= bytes + lat_ns * bw < u128::MAX,
        0 <= 2 * (n - 1) * (bytes + lat_ns * bw) < u128::MAX,
        0 <= (n - 1) * bytes + (n - 1) * lat_ns * bw < u128::MAX,
        0 <= 1000 * bw < u128::MAX,
        0 <= 2 * (n - 1) * bytes < u128::MAX,
        0 <= 2 * (n - 1) * lat_ns * n * bw < u128::MAX,
        0 <= (n - 1) * bytes < u128::MAX,
        0 <= (n - 1) * lat_ns * bw < u128::MAX,
        0 <= lat_ns * bw < u128::MAX,
        0 <= (n - 1) * bytes + (n - 1) * lat_ns * bw <= 16384 * (0x4_0000_0000_0000u128
            + 1_000_000_000 * 1_000_000),
        0 <= 2 * (n - 1) * (bytes + lat_ns * bw) <= 40000 * (0x4_0000_0000_0000u128
            + 1_000_000_000 * 1_000_000),
        0 <= 2 * (n - 1) * bytes + 2 * (n - 1) * lat_ns * n * bw <= 40000 * 16384 * (
        0x4_0000_0000_0000u128 + 1_000_000_000 * 1_000_000),
{
    assert(2 * (n - 1) * bytes + 2 * (n - 1) * lat_ns * n * bw < u128::MAX && 2 * (n - 1) * (
    bytes + lat_ns * bw) < u128::MAX && (n - 1) * bytes + (n - 1) * lat_ns * bw < u128::MAX
        && bytes + lat_ns * bw < u128::MAX && 2 * (n - 1) * bytes >= 0 && 2 * (n - 1) * lat_ns * n
        * bw >= 0 && (n - 1) * bytes >= 0 && (n - 1) * lat_ns * bw >= 0 && 2 * (n - 1) * (bytes
        + lat_ns * bw) >= 0 && lat_ns * bw >= 0 && 2 * (n - 1) * bytes < u128::MAX && 2 * (n - 1)
        * lat_ns * n * bw < u128::MAX && (n - 1) * bytes < u128::MAX && (n - 1) * lat_ns * bw
        < u128::MAX && lat_ns * bw < u128::MAX && (n - 1) * bytes + (n - 1) * lat_ns * bw <= 16384
        * (0x4_0000_0000_0000u128 + 1_000_000_000 * 1_000_000) && 2 * (n - 1) * (bytes + lat_ns
        * bw) <= 40000 * (0x4_0000_0000_0000u128 + 1_000_000_000 * 1_000_000) && 2 * (n - 1)
        * bytes + 2 * (n - 1) * lat_ns * n * bw <= 40000 * 16384 * (0x4_0000_0000_0000u128
        + 1_000_000_000 * 1_000_000)) by (nonlinear_arith)
        requires
            1 <= n <= 16384,
            0 <= bytes <= 0x4_0000_0000_0000u64,
            1 <= bw <= 1_000_000,
            0 <= lat_ns <= 1_000_000_000,
    ;
    assert(1000 * n * bw < u128::MAX && 1000 * n * bw >= 0 && 1000 * bw < u128::MAX)
        by (nonlinear_arith)
        requires
            1 <= n <= 16384,
            1 <= bw <= 1_000_000,
    ;
}

} // verus!
