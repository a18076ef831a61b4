//! Multi-device cluster simulation.
//!
//! Models a cluster of nodes, each holding several devices connected by
//! the intra-node switch, with nodes connected to each other by an
//! inter-node fabric. Point-to-point transfers pick the channel from the
//! endpoints; collectives run over the bottleneck link (the fabric for a
//! multi-node cluster, the intra-node switch otherwise).

use vstd::prelude::*;

verus! {

use crate::executor::{ExecutionStats, launch_fits, spec_run_grid};
use crate::gpu::GPU;
use crate::interconnect::{
    AllReduceAlgorithm, CollectiveOp, CollectiveStats, EffectiveBandwidth, InfiniBandConfig,
    NVLinkConfig, TransferChannel, TransferStats, ceil_log2, ceil_log2_usize,
    effective_bandwidth_gb_s, lemma_ceil_log2_bounds, lemma_collective_bounds, link_fits,
    spec_all_gather_time, spec_allreduce_bus_bw, spec_broadcast_time, spec_direct_allreduce_time,
    spec_eff_of_bw, spec_effective_bandwidth, spec_efficiency, spec_ring_allreduce_time,
    spec_transfer_time, spec_tree_allreduce_time, transfer_time_us, MAX_COLLECTIVE_BYTES,
};
use crate::kernel::{Kernel, LaunchConfig, ThreadFunc};
use crate::rat::Rat;
use crate::scheduler::{AnyScheduler, SchedulingPolicy};
use crate::sm::SmResourceUsage;

/// Identifies a device in the cluster by (node index, local device index).
#[derive(Debug, Clone, Copy, PartialEq, Eq, Hash, Structural)]
pub struct DeviceId {
    /// Index of the node within the cluster.
    pub node: usize,
    /// Index of the device within the node.
    pub gpu: usize,
}

impl DeviceId {
    pub fn new(node: usize, gpu: usize) -> (d: DeviceId)
        ensures
            d == (DeviceId { node, gpu }),
    {
        DeviceId { node, gpu }
    }
}

/// A single compute node: several devices connected all-to-all by the
/// intra-node switch at full bandwidth.
pub struct Node {
    pub id: usize,
    /// Devices on this node.
    pub gpus: Vec<GPU>,
    /// Intra-node link configuration.
    pub nvlink: NVLinkConfig,
}

impl Node {
    /// A node of `num_gpus` Hopper-class devices.
    pub fn new_h100(id: usize, num_gpus: usize, nvlink: NVLinkConfig) -> (n: Node)
        ensures
            n.id == id,
            n.gpus@.len() == num_gpus,
            n.nvlink == nvlink,
            forall|g: int|
                0 <= g < num_gpus ==> (#[trigger] n.gpus@[g]).sms@.len() == 132 && n.gpus@[g].hbm@
                    == Map::<usize, u8>::empty() && n.gpus@[g].sm_config
                    == crate::occupancy::SmConfig::h100(),
    {
        let mut gpus: Vec<GPU> = Vec::new();
        let mut g: usize = 0;
        while g < num_gpus
            invariant
                g <= num_gpus,
                gpus@.len() == g,
                forall|k: int|
                    0 <= k < g ==> (#[trigger] gpus@[k]).sms@.len() == 132 && gpus@[k].hbm@
                        == Map::<usize, u8>::empty() && gpus@[k].sm_config
                        == crate::occupancy::SmConfig::h100(),
            decreases num_gpus - g,
        {
            gpus.push(GPU::h100());
            g = g + 1;
        }
        Node { id, gpus, nvlink }
    }
}

/// Total device count across nodes.
pub open spec fn spec_total_gpus(nodes: Seq<Node>) -> int
    decreases nodes.len(),
{
    if nodes.len() == 0 {
        0
    } else {
        spec_total_gpus(nodes.drop_last()) + nodes.last().gpus@.len()
    }
}

/// Every prefix of the node list carries at most the whole list's devices.
pub proof fn lemma_total_gpus_prefix(nodes: Seq<Node>, j: int)
    requires
        0 <= j <= nodes.len(),
    ensures
        0 <= spec_total_gpus(nodes.take(j)) <= spec_total_gpus(nodes),
    decreases nodes.len() - j,
{
    lemma_total_gpus_nonneg(nodes.take(j));
    if j == nodes.len() {
        assert(nodes.take(j) =~= nodes);
    } else {
        lemma_total_gpus_prefix(nodes, j + 1);
        assert(nodes.take(j + 1).drop_last() =~= nodes.take(j));
        assert(nodes.take(j + 1).last() == nodes[j]);
    }
}

pub proof fn lemma_total_gpus_nonneg(nodes: Seq<Node>)
    ensures
        spec_total_gpus(nodes) >= 0,
        nodes.len() >= 1 && (forall|i: int| 0 <= i < nodes.len() ==> (#[trigger] nodes[i]).gpus@.len() >= 1)
            ==> spec_total_gpus(nodes) >= 1,
    decreases nodes.len(),
{
    if nodes.len() > 0 {
        lemma_total_gpus_nonneg(nodes.drop_last());
    }
}

/// A multi-device cluster: nodes connected by an inter-node fabric.
pub struct Cluster {
    pub nodes: Vec<Node>,
    /// Fabric connecting all nodes.
    pub infiniband: InfiniBandConfig,
}

impl Cluster {
    /// The cluster's links admit the cost formulas, every node holds at
    /// least one device, and the device count is small enough for the
    /// formulas' 128-bit intermediates.
    pub open spec fn wf(&self) -> bool {
        &&& self.nodes@.len() >= 1
        &&& forall|i: int| 0 <= i < self.nodes@.len() ==> (#[trigger] self.nodes@[i]).gpus@.len() >= 1
        &&& forall|i: int|
            0 <= i < self.nodes@.len() ==> link_fits(
                (#[trigger] self.nodes@[i]).nvlink.bandwidth_gb_s,
                self.nodes@[i].nvlink.latency_ns,
            )
        &&& link_fits(self.infiniband.bandwidth_gb_s, self.infiniband.latency_ns)
        &&& spec_total_gpus(self.nodes@) <= 16384
    }

    /// Whether `d` names a device of this cluster.
    pub open spec fn spec_valid_device(&self, d: DeviceId) -> bool {
        d.node < self.nodes@.len() && d.gpu < self.nodes@[d.node as int].gpus@.len()
    }

    /// Create a cluster of `num_nodes` nodes, each with `gpus_per_node`
    /// Hopper-class devices.
    pub fn new(
        num_nodes: usize,
        gpus_per_node: usize,
        nvlink: NVLinkConfig,
        infiniband: InfiniBandConfig,
    ) -> (c: Cluster)
        ensures
            c.nodes@.len() == num_nodes,
            forall|i: int|
                0 <= i < num_nodes ==> (#[trigger] c.nodes@[i]).id == i && c.nodes@[i].gpus@.len()
                    == gpus_per_node && c.nodes@[i].nvlink == nvlink,
            c.infiniband == infiniband,
            spec_total_gpus(c.nodes@) == num_nodes * gpus_per_node,
    {
        let mut nodes: Vec<Node> = Vec::new();
        let mut id: usize = 0;
        while id < num_nodes
            invariant
                id <= num_nodes,
                nodes@.len() == id,
                forall|i: int|
                    0 <= i < id ==> (#[trigger] nodes@[i]).id == i && nodes@[i].gpus@.len()
                        == gpus_per_node && nodes@[i].nvlink == nvlink,
                spec_total_gpus(nodes@) == id * gpus_per_node,
            decreases num_nodes - id,
        {
            let ghost prev = nodes@;
            nodes.push(Node::new_h100(id, gpus_per_node, nvlink));
            proof {
                assert(nodes@.drop_last() =~= prev);
                assert((id + 1) * gpus_per_node == id * gpus_per_node + gpus_per_node)
                    by (nonlinear_arith);
            }
            id = id + 1;
        }
        Cluster { nodes, infiniband }
    }

    /// A standard cluster configuration: `num_nodes` nodes of 8
    /// Hopper-class devices each, with the current-generation intra-node
    /// switch and an NDR fabric.
    pub fn h100_dgx(num_nodes: usize) -> (c: Cluster)
        ensures
            c.nodes@.len() == num_nodes,
            forall|i: int|
                0 <= i < num_nodes ==> (#[trigger] c.nodes@[i]).gpus@.len() == 8
                    && c.nodes@[i].nvlink == NVLinkConfig::h100(),
            c.infiniband == InfiniBandConfig::ndr(),
            spec_total_gpus(c.nodes@) == num_nodes * 8,
            num_nodes >= 1 && num_nodes <= 2048 ==> c.wf(),
    {
        let c = Cluster::new(num_nodes, 8, NVLinkConfig::h100(), InfiniBandConfig::ndr());
        proof {
            assert(num_nodes >= 1 && num_nodes <= 2048 ==> num_nodes * 8 <= 16384)
                by (nonlinear_arith);
        }
        c
    }

    /// Total number of devices in the cluster.
    pub fn total_gpus(&self) -> (n: usize)
        requires
            spec_total_gpus(self.nodes@) <= usize::MAX,
        ensures
            n == spec_total_gpus(self.nodes@),
    {
        proof {
            lemma_total_gpus_nonneg(self.nodes@);
            assert forall|j: int| 0 <= j <= self.nodes@.len() implies spec_total_gpus(
                #[trigger] self.nodes@.take(j),
            ) <= spec_total_gpus(self.nodes@) by {
                lemma_total_gpus_prefix(self.nodes@, j);
            }
        }
        let mut n: usize = 0;
        let mut i: usize = 0;
        while i < self.nodes.len()
            invariant
                i <= self.nodes@.len(),
                n == spec_total_gpus(self.nodes@.take(i as int)),
                spec_total_gpus(self.nodes@) <= usize::MAX,
                forall|j: int|
                    0 <= j <= self.nodes@.len() ==> spec_total_gpus(
                        #[trigger] self.nodes@.take(j),
                    ) <= spec_total_gpus(self.nodes@),
            decreases self.nodes@.len() - i,
        {
            proof {
                assert(self.nodes@.take(i + 1).drop_last() =~= self.nodes@.take(i as int));
                assert(self.nodes@.take(i + 1).last() == self.nodes@[i as int]);
                lemma_total_gpus_nonneg(self.nodes@.take(i as int));
            }
            n = n + self.nodes[i].gpus.len();
            i = i + 1;
        }
        proof {
            assert(self.nodes@.take(self.nodes@.len() as int) =~= self.nodes@);
        }
        n
    }

    /// Immutable access to one device.
    pub fn gpu(&self, device: DeviceId) -> (g: &GPU)
        requires
            self.spec_valid_device(device),
        ensures
            g == self.nodes@[device.node as int].gpus@[device.gpu as int],
    {
        &self.nodes[device.node].gpus[device.gpu]
    }

    /// Mutable access to one device.
    pub fn gpu_mut(&mut self, device: DeviceId) -> (g: &mut GPU)
        requires
            old(self).spec_valid_device(device),
        ensures
            *g == old(self).nodes@[device.node as int].gpus@[device.gpu as int],
            final(self).infiniband == old(self).infiniband,
            final(self).nodes@.len() == old(self).nodes@.len(),
            forall|i: int|
                0 <= i < old(self).nodes@.len() && i != device.node ==> final(self).nodes@[i]
                    == old(self).nodes@[i],
            final(self).nodes@[device.node as int].id == old(self).nodes@[device.node as int].id,
            final(self).nodes@[device.node as int].nvlink == old(self).nodes@[device.node
                as int].nvlink,
            final(self).nodes@[device.node as int].gpus@.len() == old(self).nodes@[device.node
                as int].gpus@.len(),
            forall|g2: int|
                0 <= g2 < old(self).nodes@[device.node as int].gpus@.len() && g2 != device.gpu
                    ==> final(self).nodes@[device.node as int].gpus@[g2] == old(
                    self,
                ).nodes@[device.node as int].gpus@[g2],
            final(self).nodes@[device.node as int].gpus@[device.gpu as int] == *final(g),
    {
        let node = &mut self.nodes[device.node];
        &mut node.gpus[device.gpu]
    }

    /// The (bandwidth GB/s, latency ns) of the bottleneck link: the
    /// inter-node fabric for a multi-node cluster, the intra-node switch
    /// otherwise.
    pub open spec fn spec_bottleneck(&self) -> (u64, u64) {
        if self.nodes@.len() > 1 {
            (self.infiniband.bandwidth_gb_s, self.infiniband.latency_ns)
        } else {
            (self.nodes@[0].nvlink.bandwidth_gb_s, self.nodes@[0].nvlink.latency_ns)
        }
    }

    fn bottleneck_link(&self) -> (r: (u64, u64))
        requires
            self.nodes@.len() >= 1,
        ensures
            r == self.spec_bottleneck(),
    {
        if self.nodes.len() > 1 {
            (self.infiniband.bandwidth_gb_s, self.infiniband.latency_ns)
        } else {
            let nv = &self.nodes[0].nvlink;
            (nv.bandwidth_gb_s, nv.latency_ns)
        }
    }

    /// Simulate a point-to-point transfer between two devices: instant on
    /// the same device, over the intra-node switch within a node, over
    /// the fabric between nodes.
    pub fn transfer(&self, src: DeviceId, dst: DeviceId, bytes: u64) -> (r: TransferStats)
        requires
            self.spec_valid_device(src),
            self.spec_valid_device(dst),
            forall|i: int|
                0 <= i < self.nodes@.len() ==> link_fits(
                    (#[trigger] self.nodes@[i]).nvlink.bandwidth_gb_s,
                    self.nodes@[i].nvlink.latency_ns,
                ),
            link_fits(self.infiniband.bandwidth_gb_s, self.infiniband.latency_ns),
        ensures
            src == dst ==> r == TransferStats::zero(TransferChannel::SameDevice),
            src != dst ==> {
                let (bw, lat, ch) = if src.node == dst.node {
                    (
                        self.nodes@[src.node as int].nvlink.bandwidth_gb_s,
                        self.nodes@[src.node as int].nvlink.latency_ns,
                        TransferChannel::NVLink,
                    )
                } else {
                    (
                        self.infiniband.bandwidth_gb_s,
                        self.infiniband.latency_ns,
                        TransferChannel::InfiniBand,
                    )
                };
                &&& r.bytes == bytes
                &&& r.channel == ch
                &&& r.time_us == spec_transfer_time(bytes, bw, lat)
                &&& (bytes == 0 ==> r.effective_bandwidth_gb_s is Infinite)
                &&& (bytes > 0 ==> r.effective_bandwidth_gb_s == EffectiveBandwidth::Finite(
                    spec_effective_bandwidth(bytes, spec_transfer_time(bytes, bw, lat)),
                ))
            },
    {
        if src == dst {
            return TransferStats::zero(TransferChannel::SameDevice);
        }
        let (bandwidth_gb_s, latency_ns, channel) = if src.node == dst.node {
            let nv = &self.nodes[src.node].nvlink;
            (nv.bandwidth_gb_s, nv.latency_ns, TransferChannel::NVLink)
        } else {
            let ib = &self.infiniband;
            (ib.bandwidth_gb_s, ib.latency_ns, TransferChannel::InfiniBand)
        };

        let time_us = transfer_time_us(bytes, bandwidth_gb_s, latency_ns);
        proof {
            assert(0 <= latency_ns * bandwidth_gb_s && latency_ns * bandwidth_gb_s + bytes
                <= 1_000_000_000 * 1_000_000 + u64::MAX) by (nonlinear_arith)
                requires
                    latency_ns <= 1_000_000_000,
                    bandwidth_gb_s <= 1_000_000,
                    bytes <= u64::MAX,
            ;
            assert(0 <= time_us.num <= 1_000_000_000 * 1_000_000 + u64::MAX);
            assert(bytes * time_us.den <= u128::MAX && time_us.num * 1000 <= u128::MAX)
                by (nonlinear_arith)
                requires
                    1 <= time_us.den <= 1000 * 1_000_000,
                    0 <= time_us.num <= 1_000_000_000 * 1_000_000 + u64::MAX,
                    bytes <= u64::MAX,
            ;
            if bytes > 0 {
                assert(time_us.num > 0);
                assert(!time_us.is_int(0)) by (nonlinear_arith)
                    requires
                        time_us.num > 0 && time_us.den >= 1,
                ;
            } else {
                assert(time_us.is_int(0));
            }
        }
        let effective_bw = effective_bandwidth_gb_s(bytes, &time_us);
        TransferStats { bytes, time_us, effective_bandwidth_gb_s: effective_bw, channel }
    }

    /// Simulate an AllReduce across every device in the cluster, over the
    /// bottleneck link, with the chosen algorithm.
    pub fn all_reduce(&self, bytes_per_gpu: u64, algorithm: AllReduceAlgorithm) -> (r:
        CollectiveStats)
        requires
            self.wf(),
            bytes_per_gpu <= MAX_COLLECTIVE_BYTES,
        ensures
            ({
                let n = spec_total_gpus(self.nodes@);
                let (bw, lat) = self.spec_bottleneck();
                let t = match algorithm {
                    AllReduceAlgorithm::Ring => spec_ring_allreduce_time(n, bytes_per_gpu, bw, lat),
                    AllReduceAlgorithm::Tree => spec_tree_allreduce_time(n, bytes_per_gpu, bw, lat),
                    AllReduceAlgorithm::Direct => spec_direct_allreduce_time(
                        n,
                        bytes_per_gpu,
                        bw,
                        lat,
                    ),
                };
                let bus = spec_allreduce_bus_bw(n, bytes_per_gpu, t);
                &&& r.operation == CollectiveOp::AllReduce
                &&& r.algorithm == algorithm
                &&& r.num_gpus == n
                &&& r.bytes_per_gpu == bytes_per_gpu
                &&& r.time_us == t
                &&& r.bus_bandwidth_gb_s == EffectiveBandwidth::Finite(bus)
                &&& r.efficiency == spec_efficiency(bus, bw)
            }),
    {
        proof {
            lemma_total_gpus_nonneg(self.nodes@);
        }
        let n = self.total_gpus();
        let (peak_bw, latency) = self.bottleneck_link();
        let ghost ni = n as int;
        proof {
            lemma_collective_bounds(ni, bytes_per_gpu, peak_bw, latency);
            lemma_ceil_log2_bounds(ni);
        }

        let time_us: Rat = match algorithm {
            AllReduceAlgorithm::Ring => {
                proof {
                    assert(0 <= 2 * (ni - 1) * latency && 2 * (ni - 1) * latency <= 40000
                        * 1_000_000_000 && 2 * (ni - 1) * latency * ni <= 40000
                        * 1_000_000_000 * 16384 && 0 <= 2 * (ni - 1) * latency * ni && 2 * (ni - 1)
                        * latency * ni * peak_bw <= 40000 * 1_000_000_000 * 16384 * 1_000_000)
                        by (nonlinear_arith)
                        requires
                            1 <= ni <= 16384,
                            0 <= latency <= 1_000_000_000,
                            1 <= peak_bw <= 1_000_000,
                    ;
                }
                let num: u128 = 2 * ((n - 1) as u128) * (bytes_per_gpu as u128) + 2 * ((n
                    - 1) as u128) * (latency as u128) * (n as u128) * (peak_bw as u128);
                Rat { num, den: 1000u128 * (n as u128) * (peak_bw as u128) }
            },
            AllReduceAlgorithm::Tree => {
                let steps = ceil_log2_usize(n);
                proof {
                    assert(steps <= 16384);
                    assert(bytes_per_gpu + latency * peak_bw < u128::MAX / 40000)
                        by (nonlinear_arith)
                        requires
                            bytes_per_gpu <= u64::MAX,
                            latency <= 1_000_000_000,
                            peak_bw <= 1_000_000,
                    ;
                    assert(2 * (steps as int) * (bytes_per_gpu + latency * peak_bw) < u128::MAX
                        && 2 * (steps as int) * (bytes_per_gpu + latency * peak_bw) >= 0)
                        by (nonlinear_arith)
                        requires
                            0 <= steps <= 16384,
                            0 <= bytes_per_gpu + latency * peak_bw < u128::MAX / 40000,
                    ;
                }
                let num: u128 = 2 * (steps as u128) * ((bytes_per_gpu as u128) + (latency as u128)
                    * (peak_bw as u128));
                Rat { num, den: 1000u128 * (peak_bw as u128) }
            },
            AllReduceAlgorithm::Direct => {
                let num: u128 = 2 * ((n - 1) as u128) * ((bytes_per_gpu as u128) + (
                latency as u128) * (peak_bw as u128));
                Rat { num, den: 1000u128 * (peak_bw as u128) }
            },
        };

        // Bus bandwidth metric: 2 (N-1)/N * B / (time * 1000).
        proof {
            assert(1 <= time_us.den <= 0x1_0000_0000_0000u128 && 0 <= time_us.num
                <= 0x2_0000_0000_0000_0000_0000u128) by (nonlinear_arith)
                requires
                    1 <= ni <= 16384,
                    1 <= peak_bw <= 1_000_000,
                    0 <= latency <= 1_000_000_000,
                    bytes_per_gpu <= 0x4_0000_0000_0000u64,
                    0 <= ceil_log2(ni) <= 16384,
                    time_us == (match algorithm {
                        AllReduceAlgorithm::Ring => spec_ring_allreduce_time(
                            ni,
                            bytes_per_gpu,
                            peak_bw,
                            latency,
                        ),
                        AllReduceAlgorithm::Tree => spec_tree_allreduce_time(
                            ni,
                            bytes_per_gpu,
                            peak_bw,
                            latency,
                        ),
                        AllReduceAlgorithm::Direct => spec_direct_allreduce_time(
                            ni,
                            bytes_per_gpu,
                            peak_bw,
                            latency,
                        ),
                    }),
            ;
            assert(0 <= 2 * (ni - 1) * bytes_per_gpu && 2 * (ni - 1) * bytes_per_gpu < u128::MAX
                && 2 * (ni - 1) * bytes_per_gpu * time_us.den <= u128::MAX && 0 <= ni
                * time_us.num && ni * time_us.num * 1000 <= u128::MAX) by (nonlinear_arith)
                requires
                    1 <= ni <= 16384,
                    bytes_per_gpu <= 0x4_0000_0000_0000u64,
                    1 <= time_us.den <= 0x1_0000_0000_0000u128,
                    0 <= time_us.num <= 0x2_0000_0000_0000_0000_0000u128,
            ;
        }
        let bus: Rat = if time_us.num == 0 {
            Rat { num: 0, den: 1 }
        } else {
            Rat {
                num: 2 * ((n - 1) as u128) * (bytes_per_gpu as u128) * time_us.den,
                den: (n as u128) * time_us.num * 1000u128,
            }
        };

        // Efficiency: bus / peak, clamped into [0, 1].
        proof {
            assert(bus.den * peak_bw <= u128::MAX) by (nonlinear_arith)
                requires
                    1 <= peak_bw <= 1_000_000,
                    bus.den == 1 || bus.den == ni * time_us.num * 1000,
                    1 <= ni <= 16384,
                    0 <= time_us.num <= 0x2_0000_0000_0000_0000_0000u128,
            ;
        }
        let eff_den: u128 = bus.den * (peak_bw as u128);
        let efficiency: Rat = if bus.num <= eff_den {
            Rat { num: bus.num, den: eff_den }
        } else {
            Rat { num: eff_den, den: eff_den }
        };

        CollectiveStats {
            operation: CollectiveOp::AllReduce,
            algorithm,
            num_gpus: n,
            bytes_per_gpu,
            time_us,
            bus_bandwidth_gb_s: EffectiveBandwidth::Finite(bus),
            efficiency,
        }
    }

    /// Simulate a Broadcast: one source device sends `bytes` to every
    /// other device with a binary-tree algorithm of `ceil(log2 N)` steps.
    pub fn broadcast(&self, src: DeviceId, bytes: u64) -> (r: CollectiveStats)
        requires
            self.wf(),
            self.spec_valid_device(src),
            bytes <= MAX_COLLECTIVE_BYTES,
        ensures
            ({
                let n = spec_total_gpus(self.nodes@);
                let (bw, lat) = self.spec_bottleneck();
                let t = spec_broadcast_time(n, bytes, bw, lat);
                &&& r.operation == (CollectiveOp::Broadcast {
                    src_node: src.node,
                    src_gpu: src.gpu,
                })
                &&& r.algorithm == AllReduceAlgorithm::Tree
                &&& r.num_gpus == n
                &&& r.bytes_per_gpu == bytes
                &&& r.time_us == t
                &&& (t.num == 0 ==> r.bus_bandwidth_gb_s is Infinite)
                &&& (t.num != 0 ==> r.bus_bandwidth_gb_s == EffectiveBandwidth::Finite(
                    spec_effective_bandwidth(bytes, t),
                ))
                &&& r.efficiency == spec_eff_of_bw(r.bus_bandwidth_gb_s, bw)
            }),
    {
        proof {
            lemma_total_gpus_nonneg(self.nodes@);
        }
        let n = self.total_gpus();
        let (peak_bw, latency) = self.bottleneck_link();
        let ghost ni = n as int;
        proof {
            lemma_collective_bounds(ni, bytes, peak_bw, latency);
            lemma_ceil_log2_bounds(ni);
        }
        let steps = ceil_log2_usize(n);
        proof {
            assert(steps <= 16384);
            assert(0 <= (steps as int) * (bytes + latency * peak_bw) && (steps as int) * (bytes
                + latency * peak_bw) <= 16384 * (0xFFFF_FFFF_FFFF_FFFFu128 + 1_000_000_000
                * 1_000_000) && (steps as int) * (bytes + latency * peak_bw) * 1000 < u128::MAX)
                by (nonlinear_arith)
                requires
                    0 <= steps <= 16384,
                    0 <= bytes <= u64::MAX,
                    0 <= latency <= 1_000_000_000,
                    1 <= peak_bw <= 1_000_000,
            ;
        }
        let time_us = Rat {
            num: (steps as u128) * ((bytes as u128) + (latency as u128) * (peak_bw as u128)),
            den: 1000u128 * (peak_bw as u128),
        };
        proof {
            assert(bytes * time_us.den <= u128::MAX && time_us.num * 1000 <= u128::MAX)
                by (nonlinear_arith)
                requires
                    bytes <= u64::MAX,
                    time_us.den <= 1000 * 1_000_000,
                    0 <= time_us.num <= 16384 * (0xFFFF_FFFF_FFFF_FFFFu128 + 1_000_000_000
                        * 1_000_000),
            ;
        }
        let bus = effective_bandwidth_gb_s(bytes, &time_us);
        proof {
            assert(time_us.is_int(0) <==> time_us.num == 0) by (nonlinear_arith)
                requires
                    time_us.den >= 1,
            ;
        }
        let efficiency: Rat = match &bus {
            EffectiveBandwidth::Infinite => Rat { num: 1, den: 1 },
            EffectiveBandwidth::Finite(b) => {
                proof {
                    assert(b.den * peak_bw <= u128::MAX) by (nonlinear_arith)
                        requires
                            b.den == time_us.num * 1000,
                            0 <= time_us.num <= 16384 * (0xFFFF_FFFF_FFFF_FFFFu128
                                + 1_000_000_000 * 1_000_000),
                            1 <= peak_bw <= 1_000_000,
                    ;
                }
                let eff_den: u128 = b.den * (peak_bw as u128);
                if b.num <= eff_den {
                    Rat { num: b.num, den: eff_den }
                } else {
                    Rat { num: eff_den, den: eff_den }
                }
            },
        };
        CollectiveStats {
            operation: CollectiveOp::Broadcast { src_node: src.node, src_gpu: src.gpu },
            algorithm: AllReduceAlgorithm::Tree,
            num_gpus: n,
            bytes_per_gpu: bytes,
            time_us,
            bus_bandwidth_gb_s: bus,
            efficiency,
        }
    }

    /// Simulate an AllGather: every device ends with all N chunks. Ring
    /// algorithm: N-1 steps, pipeline efficiency (N-1)/N over the total
    /// payload.
    pub fn all_gather(&self, bytes_per_gpu: u64) -> (r: CollectiveStats)
        requires
            self.wf(),
            bytes_per_gpu <= MAX_COLLECTIVE_BYTES,
            bytes_per_gpu * spec_total_gpus(self.nodes@) <= MAX_COLLECTIVE_BYTES,
        ensures
            ({
                let n = spec_total_gpus(self.nodes@);
                let (bw, lat) = self.spec_bottleneck();
                let t = spec_all_gather_time(n, bytes_per_gpu, bw, lat);
                let total = (bytes_per_gpu * n) as u64;
                &&& r.operation == CollectiveOp::AllGather
                &&& r.algorithm == AllReduceAlgorithm::Ring
                &&& r.num_gpus == n
                &&& r.bytes_per_gpu == bytes_per_gpu
                &&& r.time_us == t
                &&& (t.num == 0 ==> r.bus_bandwidth_gb_s is Infinite)
                &&& (t.num != 0 ==> r.bus_bandwidth_gb_s == EffectiveBandwidth::Finite(
                    spec_effective_bandwidth(total, t),
                ))
                &&& r.efficiency == spec_eff_of_bw(r.bus_bandwidth_gb_s, bw)
            }),
    {
        proof {
            lemma_total_gpus_nonneg(self.nodes@);
        }
        let n = self.total_gpus();
        let (peak_bw, latency) = self.bottleneck_link();
        let ghost ni = n as int;
        proof {
            lemma_collective_bounds(ni, bytes_per_gpu, peak_bw, latency);
            assert(bytes_per_gpu * ni >= 0) by (nonlinear_arith)
                requires
                    ni >= 1 && bytes_per_gpu >= 0,
            ;
        }
        let total_bytes: u64 = bytes_per_gpu * (n as u64);
        proof {
            assert(0 <= (ni - 1) * bytes_per_gpu && (ni - 1) * bytes_per_gpu <= 16384
                * 0x4_0000_0000_0000u128 && 0 <= (ni - 1) * latency && (ni - 1) * latency <= 16384
                * 1_000_000_000 && (ni - 1) * latency * peak_bw <= 16384 * 1_000_000_000
                * 1_000_000 && 0 <= (ni - 1) * latency * peak_bw) by (nonlinear_arith)
                requires
                    1 <= ni <= 16384,
                    0 <= bytes_per_gpu <= 0x4_0000_0000_0000u64,
                    0 <= latency <= 1_000_000_000,
                    1 <= peak_bw <= 1_000_000,
            ;
        }
        let time_us = Rat {
            num: ((n - 1) as u128) * (bytes_per_gpu as u128) + ((n - 1) as u128) * (
            latency as u128) * (peak_bw as u128),
            den: 1000u128 * (peak_bw as u128),
        };
        proof {
            assert(0 <= time_us.num <= 16384 * (0xFFFF_FFFF_FFFF_FFFFu128 + 1_000_000_000
                * 1_000_000)) by (nonlinear_arith)
                requires
                    time_us.num == (ni - 1) * bytes_per_gpu + (ni - 1) * latency * peak_bw,
                    1 <= ni <= 16384,
                    0 <= bytes_per_gpu <= u64::MAX,
                    0 <= latency <= 1_000_000_000,
                    1 <= peak_bw <= 1_000_000,
            ;
            assert(total_bytes * time_us.den <= u128::MAX && time_us.num * 1000 <= u128::MAX)
                by (nonlinear_arith)
                requires
                    total_bytes <= u64::MAX,
                    time_us.den <= 1000 * 1_000_000,
                    0 <= time_us.num <= 16384 * (0xFFFF_FFFF_FFFF_FFFFu128 + 1_000_000_000
                        * 1_000_000),
            ;
        }
        let bus = effective_bandwidth_gb_s(total_bytes, &time_us);
        proof {
            assert(time_us.is_int(0) <==> time_us.num == 0) by (nonlinear_arith)
                requires
                    time_us.den >= 1,
            ;
        }
        let efficiency: Rat = match &bus {
            EffectiveBandwidth::Infinite => Rat { num: 1, den: 1 },
            EffectiveBandwidth::Finite(b) => {
                proof {
                    assert(b.den * peak_bw <= u128::MAX) by (nonlinear_arith)
                        requires
                            b.den == time_us.num * 1000,
                            0 <= time_us.num <= 16384 * (0xFFFF_FFFF_FFFF_FFFFu128
                                + 1_000_000_000 * 1_000_000),
                            1 <= peak_bw <= 1_000_000,
                    ;
                }
                let eff_den: u128 = b.den * (peak_bw as u128);
                if b.num <= eff_den {
                    Rat { num: b.num, den: eff_den }
                } else {
                    Rat { num: eff_den, den: eff_den }
                }
            },
        };
        CollectiveStats {
            operation: CollectiveOp::AllGather,
            algorithm: AllReduceAlgorithm::Ring,
            num_gpus: n,
            bytes_per_gpu,
            time_us,
            bus_bandwidth_gb_s: bus,
            efficiency,
        }
    }

    /// Launch a kernel on one device of the cluster, delegating to the
    /// execution engine of that device.
    pub fn launch_kernel_on<F: ThreadFunc>(
        &mut self,
        device: DeviceId,
        kernel: &Kernel<F>,
        config: &LaunchConfig,
        policy: SchedulingPolicy,
    ) -> (stats: ExecutionStats)
        requires
            old(self).spec_valid_device(device),
            old(self).nodes@[device.node as int].gpus@[device.gpu as int].sms@.len() >= 1,
            launch_fits(
                *config,
                old(self).nodes@[device.node as int].gpus@[device.gpu as int].sm_config,
            ),
            config.grid_dim.spec_size() * ((config.block_dim.spec_size() + 31) / 32)
                <= u64::MAX,
        ensures
            stats.blocks_executed == config.grid_dim.spec_size(),
            stats.warps_executed == config.grid_dim.spec_size() * ((config.block_dim.spec_size()
                + 31) / 32),
            stats.threads_executed == config.grid_dim.spec_size()
                * config.block_dim.spec_size(),
            stats.scheduling_policy@ == policy.spec_name(),
            final(self).infiniband == old(self).infiniband,
            final(self).nodes@.len() == old(self).nodes@.len(),
            forall|i: int|
                0 <= i < old(self).nodes@.len() && i != device.node ==> final(self).nodes@[i]
                    == old(self).nodes@[i],
            ({
                let node = final(self).nodes@[device.node as int];
                let onode = old(self).nodes@[device.node as int];
                &&& node.id == onode.id
                &&& node.nvlink == onode.nvlink
                &&& node.gpus@.len() == onode.gpus@.len()
                &&& forall|g: int|
                    0 <= g < onode.gpus@.len() && g != device.gpu ==> node.gpus@[g]
                        == onode.gpus@[g]
            }),
            ({
                let g = final(self).nodes@[device.node as int].gpus@[device.gpu as int];
                let og = old(self).nodes@[device.node as int].gpus@[device.gpu as int];
                &&& g.hbm@ == spec_run_grid::<F, AnyScheduler>(
                    kernel.func,
                    *config,
                    policy.spec_initial_state(),
                    0,
                    og.hbm@,
                    0,
                    config.grid_dim.spec_size(),
                ).1
                &&& g.sms@.len() == og.sms@.len()
                &&& forall|k: int|
                    0 <= k < g.sms@.len() ==> (#[trigger] g.sms@[k]).resource_usage
                        == SmResourceUsage::spec_zero()
                &&& g.l2_cache == og.l2_cache
                &&& g.sm_config == og.sm_config
            }),
    {
        let node = &mut self.nodes[device.node];
        let g = &mut node.gpus[device.gpu];
        g.launch_kernel(kernel, config, policy)
    }
}

} // verus!
