use gpusim::occupancy::{
    max_blocks_per_sm, occupancy, round_up, KernelResources, OccupancyLimiter, SmConfig,
};

#[test]
fn round_up_basics() {
    assert_eq!(round_up(0, 128), 0);
    assert_eq!(round_up(1, 128), 128);
    assert_eq!(round_up(128, 128), 128);
    assert_eq!(round_up(129, 128), 256);
    // zero granularity is the identity
    assert_eq!(round_up(77, 0), 77);
}

#[test]
fn occupancy_threads_bound() {
    // 1024 threads per block on a Hopper-class unit: two blocks fit, and
    // both the thread slots and the warp slots allow exactly two; the
    // fixed tie-break priority reports the warp slots.
    let k = KernelResources { threads_per_block: 1024, regs_per_thread: 0, smem_per_block: 0 };
    let sm = SmConfig::h100();
    let (max, limiter) = max_blocks_per_sm(&k, &sm);
    assert_eq!(max, 2);
    assert_eq!(limiter, OccupancyLimiter::WarpSlots);
}

#[test]
fn occupancy_hardware_cap() {
    // 32 threads per block: thread and warp bounds are both 64, so the
    // hardware block cap of 32 binds.
    let k = KernelResources { threads_per_block: 32, regs_per_thread: 0, smem_per_block: 0 };
    let sm = SmConfig::h100();
    let (max, limiter) = max_blocks_per_sm(&k, &sm);
    assert_eq!(max, 32);
    assert_eq!(limiter, OccupancyLimiter::HardwareBlockCap);
}

#[test]
fn occupancy_register_bound() {
    // 255 registers per thread, 256 threads per block:
    // regs_per_warp = roundUp(255*32, 256) = 8192, warps = 8,
    // regs_per_block = 65536, so exactly one block fits.
    let k = KernelResources { threads_per_block: 256, regs_per_thread: 255, smem_per_block: 0 };
    let sm = SmConfig::h100();
    let (max, limiter) = max_blocks_per_sm(&k, &sm);
    assert_eq!(max, 1);
    assert_eq!(limiter, OccupancyLimiter::RegisterFile);
}

#[test]
fn occupancy_smem_bound() {
    // 100 KiB of shared memory per block on a 228 KiB unit: two blocks.
    let k = KernelResources {
        threads_per_block: 128,
        regs_per_thread: 0,
        smem_per_block: 100 * 1024,
    };
    let sm = SmConfig::h100();
    let (max, limiter) = max_blocks_per_sm(&k, &sm);
    assert_eq!(max, 2);
    assert_eq!(limiter, OccupancyLimiter::SharedMemory);
}

#[test]
fn occupancy_fraction_exact() {
    // 2 blocks of 32 warps on a 64-warp unit: occupancy is exactly 1.
    let o = occupancy(2, 32, 64);
    assert_eq!(o.num, 64);
    assert_eq!(o.den, 64);
    // 1 block of 8 warps: 8/64.
    let o = occupancy(1, 8, 64);
    assert_eq!(o.num, 8);
    assert_eq!(o.den, 64);
    // clamped: 100 blocks of 64 warps still reads as 1.
    let o = occupancy(100, 64, 64);
    assert_eq!(o.num, 64);
    assert_eq!(o.den, 64);
    let as_float = o.num as f64 / o.den as f64;
    assert!(as_float <= 1.0 && as_float >= 0.0);
}

#[test]
fn limiter_labels() {
    assert_eq!(OccupancyLimiter::ThreadSlots.label(), "thread slots");
    assert_eq!(OccupancyLimiter::WarpSlots.label(), "warp slots");
    assert_eq!(OccupancyLimiter::RegisterFile.label(), "register file");
    assert_eq!(OccupancyLimiter::SharedMemory.label(), "shared memory");
    assert_eq!(OccupancyLimiter::HardwareBlockCap.label(), "hardware block cap");
}

#[test]
fn h100_and_a100_configs() {
    let h = SmConfig::h100();
    assert_eq!(h.max_threads, 2048);
    assert_eq!(h.max_warps, 64);
    assert_eq!(h.total_smem_bytes, 228 * 1024);
    let a = SmConfig::a100();
    assert_eq!(a.total_smem_bytes, 164 * 1024);
}
