use gpusim::cluster::{Cluster, DeviceId};
use gpusim::kernel::{Dim3, Kernel, LaunchConfig, ThreadCtx};
use gpusim::kernels::{read_u64_le, CounterKernel};
use gpusim::scheduler::SchedulingPolicy;
use gpusim::sm::{StreamingMultiprocessor, SMEM_SIZE_BYTES, WARPS_PER_SM};
use gpusim::tensor_core::{Precision, TensorCore};
use gpusim::warp::{Warp, WarpScheduler, WARP_SIZE};

#[test]
fn dim3_sizes() {
    assert_eq!(Dim3::new(2, 3, 4).size(), 24);
    assert_eq!(Dim3::x(7).size(), 7);
    assert_eq!(Dim3::x(7).y, 1);
}

#[test]
fn thread_ctx_global_id() {
    let ctx = ThreadCtx {
        thread_idx: Dim3::new(5, 0, 0),
        block_idx: Dim3::new(3, 0, 0),
        block_dim: Dim3::new(128, 1, 1),
        grid_dim: Dim3::new(16, 1, 1),
    };
    assert_eq!(ctx.global_id(), 3 * 128 + 5);
}

#[test]
fn streaming_multiprocessor_allocation() {
    let mut sm = StreamingMultiprocessor::new(3);
    assert_eq!(sm.id, 3);
    assert_eq!(sm.smem.len(), SMEM_SIZE_BYTES);
    assert_eq!(sm.warp_schedulers.len(), WARPS_PER_SM);
    assert_eq!(sm.tensor_cores.len(), WARPS_PER_SM);
    assert!(sm.allocate_block(128, 4, 1024));
    assert_eq!(sm.resource_usage.active_blocks, 1);
    assert_eq!(sm.resource_usage.used_threads, 128);
    assert_eq!(sm.resource_usage.used_warps, 4);
    assert_eq!(sm.resource_usage.used_smem_bytes, 1024);
    sm.free_block(128, 4, 1024);
    assert_eq!(sm.resource_usage.active_blocks, 0);
    assert_eq!(sm.resource_usage.used_threads, 0);
    // freeing again clamps at zero instead of underflowing
    sm.free_block(128, 4, 1024);
    assert_eq!(sm.resource_usage.used_warps, 0);
}

#[test]
fn warp_dispatch_fills_schedulers() {
    let mut sm = StreamingMultiprocessor::new(0);
    for i in 0..WARPS_PER_SM {
        assert!(sm.dispatch_warp(Warp::new(i)));
    }
    // all schedulers busy now
    assert!(!sm.dispatch_warp(Warp::new(99)));
}

#[test]
fn warp_state_and_ticks() {
    let w = Warp::new(5).with_age(42);
    assert_eq!(w.id, 5);
    assert_eq!(w.age, 42);
    assert!(w.active);
    assert_eq!(w.registers.len(), WARP_SIZE);
    let mut s = WarpScheduler::new();
    assert!(s.is_idle());
    s.load_warp(w);
    assert!(!s.is_idle());
    s.tick();
    s.tick();
    assert_eq!(s.current_warp.as_ref().map(|w| w.pc), Some(2));
}

#[test]
fn tensor_core_default_precision() {
    let t = TensorCore::new();
    assert_eq!(t.precision, Precision::BF16);
}

#[test]
fn cluster_launch_on_device() {
    let mut cluster = Cluster::h100_dgx(1);
    let device = DeviceId::new(0, 3);
    let kernel = Kernel::new("count", CounterKernel { addr: 0 });
    let config = LaunchConfig::new(Dim3::x(4), Dim3::x(32));
    let stats = cluster.launch_kernel_on(device, &kernel, &config, SchedulingPolicy::Gto);
    assert_eq!(stats.blocks_executed, 4);
    assert_eq!(stats.threads_executed, 128);
    // the counter lives on the chosen device's memory only
    assert_eq!(read_u64_le(&cluster.gpu(device).hbm, 0), 128);
    assert_eq!(read_u64_le(&cluster.gpu(DeviceId::new(0, 0)).hbm, 0), 0);
}
