use gpusim::executor::{flat_to_dim3, KernelExecutor};
use gpusim::gpu::GPU;
use gpusim::kernel::{Dim3, Kernel, LaunchConfig};
use gpusim::kernels::{read_u32_le, read_u64_le, BlockRecorderKernel, CounterKernel};
use gpusim::occupancy::{OccupancyLimiter, SmConfig};
use gpusim::scheduler::SchedulingPolicy;

fn small_gpu() -> GPU {
    GPU::new(4, 1 << 20, 1 << 30, SmConfig::h100())
}

#[test]
fn flat_index_unflattens_x_fastest() {
    let d = Dim3::new(4, 3, 2);
    assert_eq!(flat_to_dim3(0, d), Dim3::new(0, 0, 0));
    assert_eq!(flat_to_dim3(1, d), Dim3::new(1, 0, 0));
    assert_eq!(flat_to_dim3(4, d), Dim3::new(0, 1, 0));
    assert_eq!(flat_to_dim3(11, d), Dim3::new(3, 2, 0));
    assert_eq!(flat_to_dim3(12, d), Dim3::new(0, 0, 1));
    assert_eq!(flat_to_dim3(23, d), Dim3::new(3, 2, 1));
}

#[test]
fn launch_counts_blocks_warps_threads() {
    // Grid 4x2x1 of 64-thread blocks: 8 blocks, 2 warps each.
    let mut gpu = small_gpu();
    let kernel = Kernel::new("count", CounterKernel { addr: 0 });
    let config = LaunchConfig::new(Dim3::new(4, 2, 1), Dim3::new(32, 2, 1));
    let stats = gpu.launch_kernel(&kernel, &config, SchedulingPolicy::Gto);
    assert_eq!(stats.blocks_executed, 8);
    assert_eq!(stats.warps_executed, 16);
    assert_eq!(stats.threads_executed, 512);
    assert_eq!(stats.scheduling_policy, "GTO");
    // 2 blocks of 2 warps resident: occupancy 4/64... the launch reports
    // the occupancy of the analyzed profile: max_blocks = 32 (hw cap),
    // so 32*2/64 = 1.
    assert_eq!(stats.max_blocks_per_sm, 32);
    assert_eq!(stats.occupancy_limiter, OccupancyLimiter::HardwareBlockCap);
    assert_eq!(stats.theoretical_occupancy.num, 64);
    assert_eq!(stats.theoretical_occupancy.den, 64);
}

#[test]
fn launch_resets_unit_counters() {
    let mut gpu = small_gpu();
    let kernel = Kernel::new("count", CounterKernel { addr: 0 });
    let config = LaunchConfig::new(Dim3::x(16), Dim3::x(128));
    gpu.launch_kernel(&kernel, &config, SchedulingPolicy::Lrr);
    for sm in &gpu.sms {
        assert_eq!(sm.resource_usage.active_blocks, 0);
        assert_eq!(sm.resource_usage.used_threads, 0);
        assert_eq!(sm.resource_usage.used_warps, 0);
        assert_eq!(sm.resource_usage.used_smem_bytes, 0);
    }
}

#[test]
fn counter_kernel_counts_every_thread() {
    // Every thread adds one: the final counter is grid.size * block.size,
    // whatever the scheduling policy.
    for policy in [
        SchedulingPolicy::Lrr,
        SchedulingPolicy::Gto,
        SchedulingPolicy::TwoLevel { active_set_size: 2 },
    ] {
        let mut gpu = small_gpu();
        let kernel = Kernel::new("count", CounterKernel { addr: 64 });
        let config = LaunchConfig::new(Dim3::new(3, 2, 2), Dim3::new(16, 4, 1));
        let stats = gpu.launch_kernel(&kernel, &config, policy);
        assert_eq!(stats.threads_executed, 12 * 64);
        assert_eq!(read_u64_le(&gpu.hbm, 64), 12 * 64);
    }
}

#[test]
fn counter_kernel_accumulates_across_launches() {
    let mut gpu = small_gpu();
    let kernel = Kernel::new("count", CounterKernel { addr: 0 });
    let config = LaunchConfig::new(Dim3::x(4), Dim3::x(32));
    gpu.launch_kernel(&kernel, &config, SchedulingPolicy::Gto);
    gpu.launch_kernel(&kernel, &config, SchedulingPolicy::Gto);
    assert_eq!(read_u64_le(&gpu.hbm, 0), 256);
}

#[test]
fn blocks_run_in_lexicographic_order() {
    // Grid (2,2,2), one thread per block; the recorder kernel logs each
    // block's coordinates in execution order.
    let mut gpu = small_gpu();
    let base: usize = 0;
    let kernel = Kernel::new("record", BlockRecorderKernel { base });
    let config = LaunchConfig::new(Dim3::new(2, 2, 2), Dim3::new(1, 1, 1));
    let stats = gpu.launch_kernel(&kernel, &config, SchedulingPolicy::Lrr);
    assert_eq!(stats.blocks_executed, 8);
    assert_eq!(read_u32_le(&gpu.hbm, base), 8);
    let expected = [
        (0, 0, 0),
        (1, 0, 0),
        (0, 1, 0),
        (1, 1, 0),
        (0, 0, 1),
        (1, 0, 1),
        (0, 1, 1),
        (1, 1, 1),
    ];
    for (i, &(bx, by, bz)) in expected.iter().enumerate() {
        let slot = base + 4 + 12 * i;
        assert_eq!(read_u32_le(&gpu.hbm, slot), bx);
        assert_eq!(read_u32_le(&gpu.hbm, slot + 4), by);
        assert_eq!(read_u32_le(&gpu.hbm, slot + 8), bz);
    }
}

#[test]
fn executor_carries_warp_ages_across_blocks() {
    let mut gpu = small_gpu();
    let mut executor = KernelExecutor::new(SchedulingPolicy::Gto, SmConfig::h100());
    assert_eq!(executor.warp_age_counter, 0);
    let kernel = Kernel::new("count", CounterKernel { addr: 0 });
    let config = LaunchConfig::new(Dim3::x(4), Dim3::x(64));
    executor.launch(&mut gpu, &kernel, &config);
    // 4 blocks of 2 warps each
    assert_eq!(executor.warp_age_counter, 8);
}

#[test]
fn partial_last_warp_counts_live_lanes_only() {
    // 40 threads per block: one full warp of 32 and a partial warp of 8.
    let mut gpu = small_gpu();
    let kernel = Kernel::new("count", CounterKernel { addr: 0 });
    let config = LaunchConfig::new(Dim3::x(2), Dim3::x(40));
    let stats = gpu.launch_kernel(&kernel, &config, SchedulingPolicy::Lrr);
    assert_eq!(stats.warps_executed, 4);
    assert_eq!(stats.threads_executed, 80);
    assert_eq!(read_u64_le(&gpu.hbm, 0), 80);
}

#[test]
fn launch_config_builders() {
    let c = LaunchConfig::new(Dim3::x(8), Dim3::x(128)).with_resources(32, 1024).with_delay(60);
    assert_eq!(c.grid_dim, Dim3::new(8, 1, 1));
    assert_eq!(c.block_dim, Dim3::new(128, 1, 1));
    assert_eq!(c.regs_per_thread, 32);
    assert_eq!(c.smem_per_block, 1024);
    assert_eq!(c.delay_ms, 60);
    assert_eq!(c.num_blocks(), 8);
    assert_eq!(c.threads_per_block(), 128);
}
