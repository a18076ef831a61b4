use gpusim::scheduler::{
    GtoScheduler, LrrScheduler, SchedulingPolicy, TwoLevelScheduler, WarpScheduler, WarpSlot,
};

fn slots_with_ages(pairs: &[(usize, u64)]) -> Vec<WarpSlot> {
    pairs.iter().map(|&(w, a)| WarpSlot::new(w, a)).collect()
}

#[test]
fn gto_order_greedy_then_oldest() {
    // Slots (warp_idx, age): (0,0) (1,1) (2,2) (3,3); no prior issue.
    let slots = slots_with_ages(&[(0, 0), (1, 1), (2, 2), (3, 3)]);
    let mut s = GtoScheduler::new();
    assert_eq!(s.order_warps(&slots), vec![0, 1, 2, 3]);
    // After issuing warp 2, it comes first and the rest follow by age.
    s.record_issued(2);
    assert_eq!(s.order_warps(&slots), vec![2, 0, 1, 3]);
}

#[test]
fn gto_age_sort_is_by_age_not_index() {
    // Oldest (smallest age) first, regardless of slot index.
    let slots = slots_with_ages(&[(0, 9), (1, 3), (2, 7), (3, 1)]);
    let mut s = GtoScheduler::new();
    assert_eq!(s.order_warps(&slots), vec![3, 1, 2, 0]);
}

#[test]
fn lrr_order_rotates_after_last_issued() {
    // Four slots 0..3, last issued = 1: rotation gives [2, 3, 0, 1].
    let slots = slots_with_ages(&[(0, 0), (1, 1), (2, 2), (3, 3)]);
    let mut s = LrrScheduler { last_issued: 1 };
    assert_eq!(s.order_warps(&slots), vec![2, 3, 0, 1]);
    s.record_issued(3);
    assert_eq!(s.order_warps(&slots), vec![0, 1, 2, 3]);
}

#[test]
fn lrr_missing_last_starts_at_zero() {
    let slots = slots_with_ages(&[(4, 0), (5, 1), (6, 2)]);
    let mut s = LrrScheduler { last_issued: 9 };
    // last issued is absent: rotation starts just after slot 0.
    assert_eq!(s.order_warps(&slots), vec![5, 6, 4]);
}

#[test]
fn two_level_active_set_and_pending() {
    // Active set bound 2, slots 0..3. First call promotes [0, 1]; the
    // rotation after cursor 0 yields [1, 0], then pending [2, 3].
    let slots = slots_with_ages(&[(0, 0), (1, 1), (2, 2), (3, 3)]);
    let mut s = TwoLevelScheduler::new(2);
    assert_eq!(s.order_warps(&slots), vec![1, 0, 2, 3]);
    // Issuing warp 0 moves the cursor to its place; the next order is
    // again [1, 0, 2, 3].
    s.record_issued(0);
    assert_eq!(s.order_warps(&slots), vec![1, 0, 2, 3]);
}

#[test]
fn two_level_cursor_rotation() {
    let slots = slots_with_ages(&[(0, 0), (1, 1), (2, 2), (3, 3)]);
    let mut s = TwoLevelScheduler::new(4);
    // all four warps fit the active set: pure round-robin
    assert_eq!(s.order_warps(&slots), vec![1, 2, 3, 0]);
    s.record_issued(2);
    assert_eq!(s.order_warps(&slots), vec![3, 0, 1, 2]);
}

#[test]
fn every_policy_emits_a_permutation() {
    let slots = slots_with_ages(&[(0, 5), (1, 2), (2, 8), (3, 0), (4, 4)]);
    for policy in [
        SchedulingPolicy::Lrr,
        SchedulingPolicy::Gto,
        SchedulingPolicy::TwoLevel { active_set_size: 2 },
    ] {
        let mut s = policy.build();
        let mut order = s.order_warps(&slots);
        order.sort();
        assert_eq!(order, vec![0, 1, 2, 3, 4]);
    }
}

#[test]
fn policy_names() {
    assert_eq!(SchedulingPolicy::Lrr.name(), "LRR");
    assert_eq!(SchedulingPolicy::Gto.name(), "GTO");
    assert_eq!(SchedulingPolicy::TwoLevel { active_set_size: 4 }.name(), "TwoLevel");
    assert_eq!(SchedulingPolicy::Gto.build().name(), "GTO");
}

#[test]
fn gto_equal_ages_keep_slot_order() {
    // A stable sort: slots of equal age stay in slot order.
    let slots = slots_with_ages(&[(0, 5), (1, 5), (2, 3)]);
    let mut s = GtoScheduler::new();
    assert_eq!(s.order_warps(&slots), vec![2, 0, 1]);
}
