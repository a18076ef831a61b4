use gpusim::cluster::{Cluster, DeviceId};
use gpusim::interconnect::{
    AllReduceAlgorithm, CollectiveOp, EffectiveBandwidth, TransferChannel,
};
use gpusim::rat::Rat;

fn rat_f64(r: &Rat) -> f64 {
    r.num as f64 / r.den as f64
}

#[test]
fn transfer_channel_selection() {
    // A cluster of 2 nodes x 8 devices.
    let cluster = Cluster::h100_dgx(2);
    assert_eq!(cluster.total_gpus(), 16);

    // Same device: instant, infinite bandwidth.
    let same = cluster.transfer(DeviceId::new(0, 0), DeviceId::new(0, 0), 1 << 30);
    assert_eq!(same.channel, TransferChannel::SameDevice);
    assert_eq!(same.time_us, Rat { num: 0, den: 1 });
    assert_eq!(same.effective_bandwidth_gb_s, EffectiveBandwidth::Infinite);

    // Same node: over the intra-node switch.
    let intra = cluster.transfer(DeviceId::new(0, 0), DeviceId::new(0, 1), 1 << 30);
    assert_eq!(intra.channel, TransferChannel::NVLink);
    assert_eq!(intra.bytes, 1 << 30);
    // time = (1000*900 + 2^30) / (1000*900) us
    assert_eq!(intra.time_us.num, 1000 * 900 + (1u128 << 30));
    assert_eq!(intra.time_us.den, 1000 * 900);

    // Different nodes: over the fabric.
    let inter = cluster.transfer(DeviceId::new(0, 0), DeviceId::new(1, 0), 1 << 30);
    assert_eq!(inter.channel, TransferChannel::InfiniBand);
    assert_eq!(inter.time_us.num, 2000 * 50 + (1u128 << 30));
    assert_eq!(inter.time_us.den, 1000 * 50);
    // the fabric is slower than the switch
    assert!(rat_f64(&inter.time_us) > rat_f64(&intra.time_us));
}

#[test]
fn ring_allreduce_sixteen_devices() {
    // 16 devices, 1 GiB each, bottleneck NDR (50 GB/s, 2 us).
    let cluster = Cluster::h100_dgx(2);
    let s = cluster.all_reduce(1 << 30, AllReduceAlgorithm::Ring);
    assert_eq!(s.operation, CollectiveOp::AllReduce);
    assert_eq!(s.algorithm, AllReduceAlgorithm::Ring);
    assert_eq!(s.num_gpus, 16);
    assert_eq!(s.bytes_per_gpu, 1 << 30);
    // time = (2*15*2^30 + 2*15*2000*16*50) / (1000*16*50)
    assert_eq!(s.time_us.num, 2 * 15 * (1u128 << 30) + 2 * 15 * 2000 * 16 * 50);
    assert_eq!(s.time_us.den, 1000 * 16 * 50);
    let time_us = rat_f64(&s.time_us);
    assert!((time_us - 40325.3184).abs() < 1e-3);
    // bus bandwidth approaches the peak link bandwidth
    match &s.bus_bandwidth_gb_s {
        EffectiveBandwidth::Finite(b) => {
            let bus = rat_f64(b);
            assert!(bus < 50.0 && bus > 49.9);
        },
        EffectiveBandwidth::Infinite => panic!("ring allreduce bus bandwidth must be finite"),
    }
    let eff = rat_f64(&s.efficiency);
    assert!(eff > 0.99 && eff <= 1.0);
}

#[test]
fn allreduce_ring_monotone_in_bytes() {
    let cluster = Cluster::h100_dgx(2);
    let s1 = cluster.all_reduce(1 << 20, AllReduceAlgorithm::Ring);
    let s2 = cluster.all_reduce(1 << 24, AllReduceAlgorithm::Ring);
    assert!(rat_f64(&s1.time_us) < rat_f64(&s2.time_us));
}

#[test]
fn allreduce_tree_and_direct() {
    let cluster = Cluster::h100_dgx(2);
    // Tree: 2 * ceil(log2 16) * (B/bw + lat) with 4 steps.
    let tree = cluster.all_reduce(1 << 30, AllReduceAlgorithm::Tree);
    assert_eq!(tree.time_us.num, 2 * 4 * ((1u128 << 30) + 2000 * 50));
    assert_eq!(tree.time_us.den, 1000 * 50);
    // Direct: 2 * 15 * (B/bw + lat).
    let direct = cluster.all_reduce(1 << 30, AllReduceAlgorithm::Direct);
    assert_eq!(direct.time_us.num, 2 * 15 * ((1u128 << 30) + 2000 * 50));
    assert_eq!(direct.time_us.den, 1000 * 50);
    // the naive algorithm is slower than the tree for 16 devices
    assert!(rat_f64(&direct.time_us) > rat_f64(&tree.time_us));
}

#[test]
fn broadcast_tree_steps() {
    let cluster = Cluster::h100_dgx(2);
    let s = cluster.broadcast(DeviceId::new(0, 3), 1 << 30);
    assert_eq!(s.operation, CollectiveOp::Broadcast { src_node: 0, src_gpu: 3 });
    assert_eq!(s.algorithm, AllReduceAlgorithm::Tree);
    assert_eq!(s.num_gpus, 16);
    // 4 steps of (B/bw + lat)
    assert_eq!(s.time_us.num, 4 * ((1u128 << 30) + 2000 * 50));
    assert_eq!(s.time_us.den, 1000 * 50);
}

#[test]
fn all_gather_ring() {
    let cluster = Cluster::h100_dgx(2);
    let s = cluster.all_gather(1 << 20);
    assert_eq!(s.operation, CollectiveOp::AllGather);
    assert_eq!(s.algorithm, AllReduceAlgorithm::Ring);
    // (N-1)/N * (N B)/bw + (N-1) lat  ==  (15 B + 15 lat bw) / (1000 bw)
    assert_eq!(s.time_us.num, 15 * (1u128 << 20) + 15 * 2000 * 50);
    assert_eq!(s.time_us.den, 1000 * 50);
}

#[test]
fn single_node_bottleneck_is_the_switch() {
    // One node: the collective runs over the intra-node switch.
    let cluster = Cluster::h100_dgx(1);
    let s = cluster.all_reduce(1 << 30, AllReduceAlgorithm::Ring);
    assert_eq!(s.num_gpus, 8);
    // denominator carries the 900 GB/s switch bandwidth
    assert_eq!(s.time_us.den, 1000 * 8 * 900);
}

#[test]
fn device_lookup() {
    let cluster = Cluster::h100_dgx(2);
    let g = cluster.gpu(DeviceId::new(1, 7));
    assert_eq!(g.sms.len(), 132);
    assert_eq!(cluster.nodes.len(), 2);
    assert_eq!(cluster.nodes[0].gpus.len(), 8);
    assert_eq!(cluster.nodes[1].id, 1);
}
