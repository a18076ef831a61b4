use gpusim::interconnect::{
    ceil_log2_usize, transfer_time_us, AllReduceAlgorithm, CollectiveOp, EffectiveBandwidth,
    InfiniBandConfig, NVLinkConfig, TransferChannel,
};
use gpusim::rat::Rat;

fn rat_f64(r: &Rat) -> f64 {
    r.num as f64 / r.den as f64
}

#[test]
fn transfer_time_zero_bytes_is_zero() {
    let t = transfer_time_us(0, 900, 1000);
    assert_eq!(t, Rat { num: 0, den: 1 });
}

#[test]
fn transfer_time_includes_latency() {
    // 1 MB over 900 GB/s with 1 us latency:
    // (1000 * 900 + 1_000_000) / (1000 * 900) us
    let t = transfer_time_us(1_000_000, 900, 1000);
    assert_eq!(t.num, 1000 * 900 + 1_000_000);
    assert_eq!(t.den, 1000 * 900);
    let v = rat_f64(&t);
    assert!(v >= 1.0); // never below the latency
    assert!((v - (1.0 + 1_000_000.0 / 900_000.0)).abs() < 1e-9);
}

#[test]
fn transfer_time_monotone_in_bytes() {
    let t1 = transfer_time_us(1 << 20, 50, 2000);
    let t2 = transfer_time_us(1 << 21, 50, 2000);
    assert!(rat_f64(&t1) < rat_f64(&t2));
}

#[test]
fn ceil_log2_values() {
    assert_eq!(ceil_log2_usize(1), 0);
    assert_eq!(ceil_log2_usize(2), 1);
    assert_eq!(ceil_log2_usize(3), 2);
    assert_eq!(ceil_log2_usize(4), 2);
    assert_eq!(ceil_log2_usize(5), 3);
    assert_eq!(ceil_log2_usize(16), 4);
    assert_eq!(ceil_log2_usize(17), 5);
}

#[test]
fn link_profiles() {
    assert_eq!(NVLinkConfig::h100().bandwidth_gb_s, 900);
    assert_eq!(NVLinkConfig::a100().bandwidth_gb_s, 600);
    assert_eq!(InfiniBandConfig::hdr().bandwidth_gb_s, 25);
    assert_eq!(InfiniBandConfig::ndr().bandwidth_gb_s, 50);
    assert_eq!(InfiniBandConfig::xdr().bandwidth_gb_s, 100);
    assert_eq!(InfiniBandConfig::xdr().latency_ns, 1500);
}

#[test]
fn labels() {
    assert_eq!(TransferChannel::SameDevice.label(), "same-device");
    assert_eq!(TransferChannel::NVLink.label(), "NVLink");
    assert_eq!(TransferChannel::InfiniBand.label(), "InfiniBand");
    assert_eq!(AllReduceAlgorithm::Ring.label(), "Ring");
    assert_eq!(AllReduceAlgorithm::Tree.label(), "Tree");
    assert_eq!(AllReduceAlgorithm::Direct.label(), "Direct");
    assert_eq!(CollectiveOp::AllReduce.label(), "AllReduce");
    assert_eq!(CollectiveOp::AllGather.label(), "AllGather");
    assert_eq!(CollectiveOp::Broadcast { src_node: 0, src_gpu: 1 }.label(), "Broadcast");
}

#[test]
fn effective_bandwidth_of_transfer() {
    // 1 GiB over NDR (50 GB/s, 2 us): time = (2000*50 + 2^30)/(1000*50) us;
    // the achieved bandwidth stays just under the peak.
    let bytes: u64 = 1 << 30;
    let t = transfer_time_us(bytes, 50, 2000);
    let time_us = rat_f64(&t);
    let bw = bytes as f64 / time_us / 1000.0;
    assert!(bw < 50.0);
    assert!(bw > 49.9);
}

#[test]
fn effective_bandwidth_variants() {
    match EffectiveBandwidth::Finite(Rat { num: 3, den: 2 }) {
        EffectiveBandwidth::Finite(r) => assert_eq!(r.num, 3),
        EffectiveBandwidth::Infinite => panic!("expected a finite bandwidth"),
    }
}
