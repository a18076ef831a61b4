use gpusim::memory::{HBM, L2Cache};

#[test]
fn hbm_write_read_round_trip() {
    let mut m = HBM::new(1 << 30);
    m.write(1000, &[1, 2, 3, 4]);
    assert_eq!(m.read(1000, 4), vec![1, 2, 3, 4]);
    // unwritten neighbours read as zero
    assert_eq!(m.read(996, 4), vec![0, 0, 0, 0]);
    assert_eq!(m.read(1004, 4), vec![0, 0, 0, 0]);
    // a read spanning the boundary sees both
    assert_eq!(m.read(998, 8), vec![0, 0, 1, 2, 3, 4, 0, 0]);
}

#[test]
fn hbm_last_writer_wins() {
    let mut m = HBM::new(1 << 30);
    m.write(0, &[10, 20, 30]);
    m.write(1, &[99]);
    assert_eq!(m.read(0, 3), vec![10, 99, 30]);
}

#[test]
fn hbm_defaults() {
    let m = HBM::new(80 * 1024 * 1024 * 1024);
    assert_eq!(m.size_bytes, 80 * 1024 * 1024 * 1024);
    assert_eq!(m.bandwidth_bps, 3_400_000_000_000);
    assert_eq!(m.read(123456789, 2), vec![0, 0]);
}

#[test]
fn l2_cache_round_trip() {
    let mut c = L2Cache::new(50 * 1024 * 1024);
    assert_eq!(c.size_bytes, 50 * 1024 * 1024);
    c.write(42, &[7; 5]);
    assert_eq!(c.read(42, 5), vec![7, 7, 7, 7, 7]);
    assert_eq!(c.read(0, 2), vec![0, 0]);
}
