//! Warp scheduling policies.
//!
//! Each issue cycle, the warp scheduler puts the warps of a block into a
//! priority order. Three policies are implemented:
//!   - LRR (Loose Round-Robin): simple rotation, baseline.
//!   - GTO (Greedy-Then-Oldest): stay with the last-issued warp, then
//!     fall back to the oldest.
//!   - TwoLevel: a bounded active set scheduled round-robin, with the
//!     remaining warps as a pending pool.
//!
//! All three policies ignore the warp state in this functional model
//! (every warp is effectively eligible end to end); the state exists for
//! future stall modelling.

use vstd::prelude::*;

verus! {

use vstd::seq_lib::lemma_multiset_commutative;
use vstd::multiset::Multiset;

broadcast use vstd::seq_lib::group_to_multiset_ensures, vstd::multiset::group_multiset_axioms;

/// The execution state of a warp.
#[derive(Debug, Clone, Copy, PartialEq, Eq, Structural)]
pub enum WarpState {
    /// Ready to issue: no unsatisfied dependencies.
    Eligible,
    /// Waiting on a long-latency global-memory load.
    LongScoreboard,
    /// Waiting on shared memory or fixed-latency arithmetic.
    ShortScoreboard,
    /// Waiting at a block-wide barrier for other warps.
    Barrier,
    /// Waiting for the result of a prior instruction of the same warp.
    ExecDep,
    /// Memory subsystem request queue is full.
    MemThrottle,
    /// Waiting for the instruction fetch to return.
    Fetch,
    /// No more instructions; the warp has exited.
    Idle,
}

impl WarpState {
    pub fn is_eligible(&self) -> (r: bool)
        ensures
            r == (*self == WarpState::Eligible),
    {
        *self == WarpState::Eligible
    }

    /// Human-readable name of the state.
    pub fn label(&self) -> (r: &'static str)
        ensures
            r@ == match *self {
                WarpState::Eligible => "Eligible"@,
                WarpState::LongScoreboard => "LongScoreboard"@,
                WarpState::ShortScoreboard => "ShortScoreboard"@,
                WarpState::Barrier => "Barrier"@,
                WarpState::ExecDep => "ExecDep"@,
                WarpState::MemThrottle => "MemThrottle"@,
                WarpState::Fetch => "Fetch"@,
                WarpState::Idle => "Idle"@,
            },
    {
        match self {
            WarpState::Eligible => "Eligible",
            WarpState::LongScoreboard => "LongScoreboard",
            WarpState::ShortScoreboard => "ShortScoreboard",
            WarpState::Barrier => "Barrier",
            WarpState::ExecDep => "ExecDep",
            WarpState::MemThrottle => "MemThrottle",
            WarpState::Fetch => "Fetch",
            WarpState::Idle => "Idle",
        }
    }
}

/// The scheduler's view of a warp: its index within the block, its current
/// state, and its age (lower = older, assigned from a launch-scoped counter).
#[derive(Debug, Clone, Copy, PartialEq, Eq, Structural)]
pub struct WarpSlot {
    /// Warp index within the block.
    pub warp_idx: usize,
    /// Current execution state.
    pub state: WarpState,
    /// Launch timestamp; lower means older.
    pub age: u64,
}

impl WarpSlot {
    pub fn new(warp_idx: usize, age: u64) -> (s: WarpSlot)
        ensures
            s == (WarpSlot { warp_idx, state: WarpState::Eligible, age }),
    {
        WarpSlot { warp_idx, state: WarpState::Eligible, age }
    }
}

/// The warp indices of a slot list, in slot order.
pub open spec fn warp_idxs(slots: Seq<WarpSlot>) -> Seq<usize> {
    slots.map_values(|s: WarpSlot| s.warp_idx)
}

/// A well-formed slot list names every warp at most once.
pub open spec fn distinct_idxs(slots: Seq<WarpSlot>) -> bool {
    forall|i: int, j: int|
        0 <= i < j < slots.len() ==> slots[i].warp_idx != slots[j].warp_idx
}

/// Position of the first slot carrying warp index `w`, or `slots.len()` if
/// no slot does.
pub open spec fn first_match_pos(slots: Seq<WarpSlot>, w: usize) -> int
    decreases slots.len(),
{
    if slots.len() == 0 {
        0
    } else if slots[0].warp_idx == w {
        0
    } else {
        1 + first_match_pos(slots.drop_first(), w)
    }
}

pub proof fn lemma_first_match_pos(slots: Seq<WarpSlot>, w: usize)
    ensures
        0 <= first_match_pos(slots, w) <= slots.len(),
        first_match_pos(slots, w) < slots.len() ==> slots[first_match_pos(slots, w)].warp_idx
            == w,
        forall|j: int| 0 <= j < first_match_pos(slots, w) ==> slots[j].warp_idx != w,
    decreases slots.len(),
{
    if slots.len() > 0 && slots[0].warp_idx != w {
        lemma_first_match_pos(slots.drop_first(), w);
        assert forall|j: int| 0 <= j < first_match_pos(slots, w) implies slots[j].warp_idx
            != w by {
            if j > 0 {
                assert(slots.drop_first()[j - 1] == slots[j]);
            }
        }
    }
}

/// Interface of a warp scheduling policy.
///
/// `spec_promote`, `spec_order` and `spec_record` are the mathematical
/// model of the policy, over the scheduler's abstract state (its view):
/// the state after observing a slot list, the order it hands out, and the
/// state after an issue is recorded. A slot list is expected to name every
/// warp at most once (`distinct_idxs`), as the executor builds it.
pub trait WarpScheduler: View + Sized {
    /// The scheduler state after `order_warps` observed `slots`.
    spec fn spec_promote(v: Self::V, slots: Seq<WarpSlot>) -> Self::V;

    /// The priority order handed out for `slots`.
    spec fn spec_order(v: Self::V, slots: Seq<WarpSlot>) -> Seq<usize>;

    /// The scheduler state after a warp issue is recorded.
    spec fn spec_record(v: Self::V, warp_idx: usize) -> Self::V;

    /// Whether the scheduler's internal state only names warps present in
    /// `slots`; needed for the order to be a permutation of the slots.
    spec fn spec_compatible(v: Self::V, slots: Seq<WarpSlot>) -> bool;

    /// Policy name.
    spec fn spec_name(v: Self::V) -> Seq<char>;

    /// Return a priority-ordered list of the warp indices in `slots`.
    /// For every policy the order is a permutation of the slots' warp
    /// indices, provided the internal state names no foreign warp.
    fn order_warps(&mut self, slots: &Vec<WarpSlot>) -> (r: Vec<usize>)
        requires
            distinct_idxs(slots@),
        ensures
            r@ == Self::spec_order(old(self)@, slots@),
            final(self)@ == Self::spec_promote(old(self)@, slots@),
            Self::spec_compatible(old(self)@, slots@) ==> r@.to_multiset() == warp_idxs(
                slots@,
            ).to_multiset(),
            Self::spec_compatible(old(self)@, slots@) ==> Self::spec_compatible(
                final(self)@,
                slots@,
            ),
    ;

    /// Called after a warp issues so the scheduler can update its state.
    fn record_issued(&mut self, warp_idx: usize)
        ensures
            final(self)@ == Self::spec_record(old(self)@, warp_idx),
    ;

    /// At the specification level too, the order handed out for a
    /// well-formed slot list is a permutation of its warp indices, and
    /// promotion keeps the state compatible.
    proof fn order_wf(v: Self::V, slots: Seq<WarpSlot>)
        requires
            distinct_idxs(slots),
            Self::spec_compatible(v, slots),
        ensures
            Self::spec_order(v, slots).to_multiset() == warp_idxs(slots).to_multiset(),
            Self::spec_compatible(Self::spec_promote(v, slots), slots),
    ;

    /// Recording an issue never makes the state name a foreign warp.
    proof fn compatible_after_record(v: Self::V, slots: Seq<WarpSlot>, warp_idx: usize)
        requires
            Self::spec_compatible(v, slots),
        ensures
            Self::spec_compatible(Self::spec_record(v, warp_idx), slots),
    ;

    /// Compatibility only looks at which warps a slot list names, not at
    /// their states or ages.
    proof fn compatible_same_idxs(v: Self::V, slots1: Seq<WarpSlot>, slots2: Seq<WarpSlot>)
        requires
            Self::spec_compatible(v, slots1),
            warp_idxs(slots1) == warp_idxs(slots2),
        ensures
            Self::spec_compatible(v, slots2),
    ;

    fn name(&self) -> (r: &'static str)
        ensures
            r@ == Self::spec_name(self@),
    ;
}

// ---------------------------------------------------------------------------
// Loose Round-Robin (LRR)
// ---------------------------------------------------------------------------

/// Rotates through all warps in order, giving equal priority to each.
pub struct LrrScheduler {
    pub last_issued: usize,
}

impl View for LrrScheduler {
    type V = LrrScheduler;

    open spec fn view(&self) -> LrrScheduler {
        *self
    }
}

impl LrrScheduler {
    pub fn new() -> (s: LrrScheduler)
        ensures
            s == (LrrScheduler { last_issued: 0usize }),
    {
        LrrScheduler { last_issued: 0 }
    }

    /// Where the rotation starts: the first slot carrying the last-issued
    /// warp, or slot 0 when no slot does.
    pub open spec fn spec_start(&self, slots: Seq<WarpSlot>) -> int {
        if first_match_pos(slots, self.last_issued) < slots.len() {
            first_match_pos(slots, self.last_issued)
        } else {
            0
        }
    }
}

impl WarpScheduler for LrrScheduler {
    open spec fn spec_promote(v: LrrScheduler, slots: Seq<WarpSlot>) -> LrrScheduler {
        v
    }

    /// The slots' warp indices rotated to start just after the position of
    /// the last-issued warp.
    open spec fn spec_order(v: LrrScheduler, slots: Seq<WarpSlot>) -> Seq<usize> {
        if slots.len() == 0 {
            Seq::empty()
        } else {
            let p = v.spec_start(slots);
            warp_idxs(slots).subrange(p + 1, slots.len() as int) + warp_idxs(slots).subrange(
                0,
                p + 1,
            )
        }
    }

    open spec fn spec_record(v: LrrScheduler, warp_idx: usize) -> LrrScheduler {
        LrrScheduler { last_issued: warp_idx }
    }

    open spec fn spec_compatible(v: LrrScheduler, slots: Seq<WarpSlot>) -> bool {
        true
    }

    open spec fn spec_name(v: LrrScheduler) -> Seq<char> {
        "LRR"@
    }

    fn order_warps(&mut self, slots: &Vec<WarpSlot>) -> (r: Vec<usize>)
    {
        let n = slots.len();
        if n == 0 {
            let r: Vec<usize> = Vec::new();
            proof {
                assert(r@ =~= LrrScheduler::spec_order(*self, slots@));
                assert(warp_idxs(slots@) =~= Seq::<usize>::empty());
                assert(r@.to_multiset() =~= warp_idxs(slots@).to_multiset());
            }
            return r;
        }

        // Find the position of the last-issued warp, defaulting to 0.
        proof {
            lemma_first_match_pos(slots@, self.last_issued);
        }
        let mut pos: usize = 0;
        let mut found: bool = false;
        let mut i: usize = 0;
        while i < n
            invariant
                i <= n,
                n == slots@.len(),
                !found ==> forall|j: int| 0 <= j < i ==> slots@[j].warp_idx != self.last_issued,
                found ==> pos < n && pos == first_match_pos(slots@, self.last_issued),
            decreases n - i,
        {
            if !found && slots[i].warp_idx == self.last_issued {
                proof {
                    lemma_first_match_pos(slots@, self.last_issued);
                }
                pos = i;
                found = true;
            }
            i = i + 1;
        }
        if !found {
            pos = 0;
        }
        proof {
            lemma_first_match_pos(slots@, self.last_issued);
            assert(pos == self.spec_start(slots@));
        }

        let ghost p = pos as int;
        let mut r: Vec<usize> = Vec::new();
        let mut k: usize = pos + 1;
        while k < n
            invariant
                pos < n <= usize::MAX,
                p == pos as int,
                n == slots@.len(),
                pos + 1 <= k <= n,
                r@ =~= warp_idxs(slots@).subrange(p + 1, k as int),
            decreases n - k,
        {
            r.push(slots[k].warp_idx);
            proof {
                assert(r@ =~= warp_idxs(slots@).subrange(p + 1, k + 1));
            }
            k = k + 1;
        }
        let mut k2: usize = 0;
        while k2 < pos + 1
            invariant
                pos < n <= usize::MAX,
                p == pos as int,
                n == slots@.len(),
                k2 <= pos + 1,
                r@ =~= warp_idxs(slots@).subrange(p + 1, n as int) + warp_idxs(slots@).subrange(
                    0,
                    k2 as int,
                ),
            decreases pos + 1 - k2,
        {
            r.push(slots[k2].warp_idx);
            proof {
                assert(r@ =~= warp_idxs(slots@).subrange(p + 1, n as int) + warp_idxs(
                    slots@,
                ).subrange(0, k2 + 1));
            }
            k2 = k2 + 1;
        }
        proof {
            let idxs = warp_idxs(slots@);
            lemma_multiset_commutative(idxs.subrange(p + 1, n as int), idxs.subrange(0, p + 1));
            lemma_multiset_commutative(idxs.subrange(0, p + 1), idxs.subrange(p + 1, n as int));
            assert(idxs.subrange(0, p + 1) + idxs.subrange(p + 1, n as int) =~= idxs);
            assert(r@.to_multiset() == warp_idxs(slots@).to_multiset());
        }
        r
    }

    fn record_issued(&mut self, warp_idx: usize) {
        self.last_issued = warp_idx;
    }

    proof fn order_wf(v: LrrScheduler, slots: Seq<WarpSlot>) {
        if slots.len() == 0 {
            assert(warp_idxs(slots) =~= Seq::<usize>::empty());
            assert(LrrScheduler::spec_order(v, slots).to_multiset() =~= warp_idxs(
                slots,
            ).to_multiset());
        } else {
            lemma_first_match_pos(slots, v.last_issued);
            let p = v.spec_start(slots);
            let idxs = warp_idxs(slots);
            lemma_multiset_commutative(idxs.subrange(p + 1, slots.len() as int), idxs.subrange(0, p + 1));
            lemma_multiset_commutative(idxs.subrange(0, p + 1), idxs.subrange(p + 1, slots.len() as int));
            assert(idxs.subrange(0, p + 1) + idxs.subrange(p + 1, slots.len() as int) =~= idxs);
        }
    }

    proof fn compatible_after_record(v: LrrScheduler, slots: Seq<WarpSlot>, warp_idx: usize) {
    }

    proof fn compatible_same_idxs(v: LrrScheduler, slots1: Seq<WarpSlot>, slots2: Seq<WarpSlot>) {
    }

    fn name(&self) -> (r: &'static str) {
        "LRR"
    }
}

// ---------------------------------------------------------------------------
// Greedy-Then-Oldest (GTO)
// ---------------------------------------------------------------------------

/// `slots` with every slot carrying warp index `w` removed, order kept.
pub open spec fn slots_without(slots: Seq<WarpSlot>, w: usize) -> Seq<WarpSlot>
    decreases slots.len(),
{
    if slots.len() == 0 {
        Seq::empty()
    } else if slots.last().warp_idx == w {
        slots_without(slots.drop_last(), w)
    } else {
        slots_without(slots.drop_last(), w).push(slots.last())
    }
}

/// `x` inserted into `s` after every slot whose age is at most `x.age`
/// (so a stable insertion when applied left to right).
pub open spec fn insert_by_age(s: Seq<WarpSlot>, x: WarpSlot) -> Seq<WarpSlot>
    decreases s.len(),
{
    if s.len() == 0 {
        seq![x]
    } else if x.age < s.last().age {
        insert_by_age(s.drop_last(), x).push(s.last())
    } else {
        s.push(x)
    }
}

/// Stable sort of `s` by ascending age: slots of equal age keep their
/// relative order.
pub open spec fn sort_by_age(s: Seq<WarpSlot>) -> Seq<WarpSlot>
    decreases s.len(),
{
    if s.len() == 0 {
        Seq::empty()
    } else {
        insert_by_age(sort_by_age(s.drop_last()), s.last())
    }
}

/// Where the exec insertion lands: if everything from `j` on is strictly
/// younger (greater age) and the slot before `j` is not, the insertion is
/// exactly at `j`.
proof fn lemma_insert_by_age_position(s: Seq<WarpSlot>, x: WarpSlot, j: int)
    requires
        0 <= j <= s.len(),
        forall|k: int| j <= k < s.len() ==> s[k].age > x.age,
        j > 0 ==> s[j - 1].age <= x.age,
    ensures
        insert_by_age(s, x) == s.insert(j, x),
    decreases s.len(),
{
    if s.len() == 0 {
        assert(insert_by_age(s, x) =~= s.insert(0, x));
    } else if x.age < s.last().age {
        assert(j < s.len());
        lemma_insert_by_age_position(s.drop_last(), x, j);
        assert(insert_by_age(s.drop_last(), x).push(s.last()) =~= s.insert(j, x));
    } else {
        assert(j == s.len());
        assert(s.push(x) =~= s.insert(j, x));
    }
}

/// Inserting adds exactly one warp index to the multiset.
proof fn lemma_insert_by_age_multiset(s: Seq<WarpSlot>, x: WarpSlot)
    ensures
        warp_idxs(insert_by_age(s, x)).to_multiset() == warp_idxs(s).to_multiset().insert(
            x.warp_idx,
        ),
        warp_idxs(insert_by_age(s, x)).len() == s.len() + 1,
    decreases s.len(),
{
    if s.len() == 0 {
        assert(warp_idxs(insert_by_age(s, x)) =~= Seq::<usize>::empty().push(x.warp_idx));
        assert(warp_idxs(s) =~= Seq::<usize>::empty());
    } else if x.age < s.last().age {
        lemma_insert_by_age_multiset(s.drop_last(), x);
        assert(warp_idxs(insert_by_age(s, x)) =~= warp_idxs(
            insert_by_age(s.drop_last(), x),
        ).push(s.last().warp_idx));
        assert(warp_idxs(s) =~= warp_idxs(s.drop_last()).push(s.last().warp_idx));
        assert(warp_idxs(s).to_multiset() =~= warp_idxs(s.drop_last()).to_multiset().insert(
            s.last().warp_idx,
        ));
        assert(warp_idxs(insert_by_age(s, x)).to_multiset() =~= warp_idxs(
            s,
        ).to_multiset().insert(x.warp_idx));
    } else {
        assert(warp_idxs(s.push(x)) =~= warp_idxs(s).push(x.warp_idx));
    }
}

/// Sorting preserves the multiset of warp indices.
proof fn lemma_sort_by_age_multiset(s: Seq<WarpSlot>)
    ensures
        warp_idxs(sort_by_age(s)).to_multiset() == warp_idxs(s).to_multiset(),
        sort_by_age(s).len() == s.len(),
    decreases s.len(),
{
    if s.len() > 0 {
        lemma_sort_by_age_multiset(s.drop_last());
        lemma_insert_by_age_multiset(sort_by_age(s.drop_last()), s.last());
        assert(warp_idxs(s) =~= warp_idxs(s.drop_last()).push(s.last().warp_idx));
        assert(warp_idxs(s).to_multiset() =~= warp_idxs(s.drop_last()).to_multiset().insert(
            s.last().warp_idx,
        ));
    } else {
        assert(warp_idxs(sort_by_age(s)) =~= warp_idxs(s));
    }
}

/// Removing the slot of warp `w` from a well-formed slot list removes
/// exactly one occurrence of `w` from the multiset of indices (or nothing
/// when `w` is absent).
proof fn lemma_slots_without_multiset(slots: Seq<WarpSlot>, w: usize)
    requires
        distinct_idxs(slots),
    ensures
        !warp_idxs(slots).contains(w) ==> slots_without(slots, w) == slots,
        warp_idxs(slots).contains(w) ==> warp_idxs(slots).to_multiset() == warp_idxs(
            slots_without(slots, w),
        ).to_multiset().insert(w),
        !warp_idxs(slots_without(slots, w)).contains(w),
        slots_without(slots, w).len() <= slots.len(),
        warp_idxs(slots).contains(w) ==> slots_without(slots, w).len() == slots.len() - 1,
        distinct_idxs(slots_without(slots, w)),
        forall|v: usize|
            #[trigger] warp_idxs(slots_without(slots, w)).contains(v) <==> (warp_idxs(
                slots,
            ).contains(v) && v != w),
    decreases slots.len(),
{
    if slots.len() == 0 {
        assert(slots_without(slots, w) =~= slots);
    } else {
        let head = slots.drop_last();
        let last = slots.last();
        assert(distinct_idxs(head));
        lemma_slots_without_multiset(head, w);
        assert(warp_idxs(slots) =~= warp_idxs(head).push(last.warp_idx));
        assert(warp_idxs(slots).to_multiset() =~= warp_idxs(head).to_multiset().insert(
            last.warp_idx,
        ));
        // contains on a push:
        assert forall|v: usize|
            warp_idxs(slots).contains(v) <==> (warp_idxs(head).contains(v) || v
                == last.warp_idx) by {
            assert(warp_idxs(slots)[slots.len() - 1] == last.warp_idx);
            if warp_idxs(slots).contains(v) {
                let i = choose|i: int| 0 <= i < warp_idxs(slots).len() && warp_idxs(slots)[i] == v;
                if i < slots.len() - 1 {
                    assert(warp_idxs(head)[i] == v);
                }
            }
            if warp_idxs(head).contains(v) {
                let i = choose|i: int| 0 <= i < warp_idxs(head).len() && warp_idxs(head)[i] == v;
                assert(warp_idxs(slots)[i] == v);
            }
        }
        if last.warp_idx == w {
            // distinctness: w does not occur in the head
            assert(!warp_idxs(head).contains(w)) by {
                if warp_idxs(head).contains(w) {
                    let i = choose|i: int|
                        0 <= i < warp_idxs(head).len() && warp_idxs(head)[i] == w;
                    assert(slots[i].warp_idx == w && slots[slots.len() - 1].warp_idx == w);
                }
            }
        } else {
            assert(warp_idxs(slots_without(slots, w)) =~= warp_idxs(
                slots_without(head, w),
            ).push(last.warp_idx));
            assert(warp_idxs(slots_without(slots, w)).to_multiset() =~= warp_idxs(
                slots_without(head, w),
            ).to_multiset().insert(last.warp_idx));
            let sw = slots_without(head, w);
            assert forall|v: usize| #[trigger]
                warp_idxs(slots_without(slots, w)).contains(v) <==> (warp_idxs(slots).contains(v)
                && v != w) by {
                lemma_push_contains(warp_idxs(sw), last.warp_idx, v);
            }
            assert(!warp_idxs(sw).contains(last.warp_idx)) by {
                if warp_idxs(sw).contains(last.warp_idx) {
                    let i = choose|i: int|
                        0 <= i < warp_idxs(head).len() && warp_idxs(head)[i] == last.warp_idx;
                    assert(slots[i].warp_idx == last.warp_idx);
                    assert(slots[slots.len() - 1].warp_idx == last.warp_idx);
                }
            }
            assert forall|i: int, j: int|
                0 <= i < j < slots_without(slots, w).len() implies slots_without(
                slots,
                w,
            )[i].warp_idx != slots_without(slots, w)[j].warp_idx by {
                if j == slots_without(slots, w).len() - 1 {
                    assert(slots_without(slots, w)[i] == sw[i]);
                    assert(warp_idxs(sw)[i] == sw[i].warp_idx);
                    assert(warp_idxs(sw).contains(warp_idxs(sw)[i]));
                } else {
                    assert(slots_without(slots, w)[i] == sw[i]);
                    assert(slots_without(slots, w)[j] == sw[j]);
                }
            }
            if warp_idxs(head).contains(w) {
                assert(warp_idxs(slots).to_multiset() =~= warp_idxs(
                    slots_without(slots, w),
                ).to_multiset().insert(w)) by {
                    assert(warp_idxs(head).to_multiset() =~= warp_idxs(
                        slots_without(head, w),
                    ).to_multiset().insert(w));
                }
            } else {
                assert(slots_without(slots, w) =~= slots);
            }
        }
    }
}

/// Sticks with the last-issued warp (greedy), then falls back to the
/// oldest remaining warp.
pub struct GtoScheduler {
    pub last_issued: Option<usize>,
}

impl View for GtoScheduler {
    type V = GtoScheduler;

    open spec fn view(&self) -> GtoScheduler {
        *self
    }
}

impl GtoScheduler {
    pub fn new() -> (s: GtoScheduler)
        ensures
            s == (GtoScheduler { last_issued: Option::<usize>::None }),
    {
        GtoScheduler { last_issued: None }
    }
}

impl WarpScheduler for GtoScheduler {
    open spec fn spec_promote(v: GtoScheduler, slots: Seq<WarpSlot>) -> GtoScheduler {
        v
    }

    /// The last-issued warp first (if still present), then the remaining
    /// warps stably sorted by ascending age.
    open spec fn spec_order(v: GtoScheduler, slots: Seq<WarpSlot>) -> Seq<usize> {
        match v.last_issued {
            Option::None => warp_idxs(sort_by_age(slots)),
            Option::Some(w) => {
                let rest = warp_idxs(sort_by_age(slots_without(slots, w)));
                if warp_idxs(slots).contains(w) {
                    seq![w] + rest
                } else {
                    rest
                }
            },
        }
    }

    open spec fn spec_record(v: GtoScheduler, warp_idx: usize) -> GtoScheduler {
        GtoScheduler { last_issued: Some(warp_idx) }
    }

    open spec fn spec_compatible(v: GtoScheduler, slots: Seq<WarpSlot>) -> bool {
        true
    }

    open spec fn spec_name(v: GtoScheduler) -> Seq<char> {
        "GTO"@
    }

    fn order_warps(&mut self, slots: &Vec<WarpSlot>) -> (r: Vec<usize>)
    {
        let n = slots.len();
        let mut ordered: Vec<usize> = Vec::new();
        let mut greedy_present: bool = false;

        // Greedy warp first (last issued, if still present).
        if let Some(last) = self.last_issued {
            let mut i: usize = 0;
            while i < n
                invariant
                    i <= n,
                    n == slots@.len(),
                    !greedy_present ==> forall|j: int|
                        0 <= j < i ==> slots@[j].warp_idx != last,
                    greedy_present ==> warp_idxs(slots@).contains(last),
                    greedy_present ==> ordered@ =~= seq![last],
                    !greedy_present ==> ordered@ =~= Seq::<usize>::empty(),
                decreases n - i,
            {
                if !greedy_present && slots[i].warp_idx == last {
                    assert(warp_idxs(slots@)[i as int] == last);
                    ordered.push(last);
                    greedy_present = true;
                }
                i = i + 1;
            }
            proof {
                if !greedy_present {
                    assert(!warp_idxs(slots@).contains(last)) by {
                        if warp_idxs(slots@).contains(last) {
                            let j = choose|j: int|
                                0 <= j < warp_idxs(slots@).len() && warp_idxs(slots@)[j]
                                    == last;
                            assert(slots@[j].warp_idx == last);
                        }
                    }
                }
            }
        }

        // Remaining warps: every slot not carrying the greedy index.
        let mut rest: Vec<WarpSlot> = Vec::new();
        let mut i: usize = 0;
        while i < n
            invariant
                i <= n,
                n == slots@.len(),
                rest@ == match self.last_issued {
                    Option::None => slots@.take(i as int),
                    Option::Some(w) => slots_without(slots@.take(i as int), w),
                },
            decreases n - i,
        {
            let keep = match self.last_issued {
                Some(w) => slots[i].warp_idx != w,
                None => true,
            };
            if keep {
                rest.push(slots[i]);
            }
            proof {
                assert(slots@.take(i + 1).drop_last() =~= slots@.take(i as int));
                assert(slots@.take(i + 1).last() == slots@[i as int]);
                if self.last_issued is None {
                    assert(rest@ =~= slots@.take(i + 1));
                }
            }
            i = i + 1;
        }
        proof {
            assert(slots@.take(n as int) =~= slots@);
        }

        // Stable insertion sort of the rest by ascending age.
        let m = rest.len();
        let mut sorted: Vec<WarpSlot> = Vec::new();
        let mut i2: usize = 0;
        while i2 < m
            invariant
                i2 <= m,
                m == rest@.len(),
                sorted@ == sort_by_age(rest@.take(i2 as int)),
                sorted@.len() == i2,
            decreases m - i2,
        {
            let x = rest[i2];
            let mut j: usize = sorted.len();
            while j > 0 && sorted[j - 1].age > x.age
                invariant
                    j <= sorted@.len(),
                    forall|k: int| j <= k < sorted@.len() ==> sorted@[k].age > x.age,
                decreases j,
            {
                j = j - 1;
            }
            proof {
                lemma_insert_by_age_position(sorted@, x, j as int);
                assert(rest@.take(i2 + 1).drop_last() =~= rest@.take(i2 as int));
                assert(rest@.take(i2 + 1).last() == x);
            }
            sorted.insert(j, x);
            i2 = i2 + 1;
        }
        proof {
            assert(rest@.take(m as int) =~= rest@);
        }

        // Append the sorted remainder after the greedy warp.
        let ghost prefix = ordered@;
        let mut k: usize = 0;
        while k < m
            invariant
                k <= m,
                m == sorted@.len(),
                sorted@ == sort_by_age(rest@),
                ordered@ =~= prefix + warp_idxs(sorted@).take(k as int),
            decreases m - k,
        {
            ordered.push(sorted[k].warp_idx);
            proof {
                assert(warp_idxs(sorted@)[k as int] == sorted@[k as int].warp_idx);
                assert(ordered@ =~= prefix + warp_idxs(sorted@).take(k + 1));
            }
            k = k + 1;
        }
        proof {
            assert(warp_idxs(sorted@).take(m as int) =~= warp_idxs(sorted@));
            assert(ordered@ =~= GtoScheduler::spec_order(*self, slots@));
            // permutation of the slot indices
            lemma_sort_by_age_multiset(rest@);
            match self.last_issued {
                Option::None => {
                    assert(ordered@.to_multiset() == warp_idxs(slots@).to_multiset());
                },
                Option::Some(w) => {
                    lemma_slots_without_multiset(slots@, w);
                    if warp_idxs(slots@).contains(w) {
                        lemma_multiset_commutative(seq![w], warp_idxs(sorted@));
                        assert(seq![w].to_multiset() =~= Multiset::<usize>::empty().insert(w));
                        assert(ordered@.to_multiset() =~= warp_idxs(sorted@).to_multiset().insert(
                            w,
                        ));
                        assert(ordered@.to_multiset() == warp_idxs(slots@).to_multiset());
                    } else {
                        assert(ordered@.to_multiset() == warp_idxs(slots@).to_multiset());
                    }
                },
            }
        }
        ordered
    }

    fn record_issued(&mut self, warp_idx: usize) {
        self.last_issued = Some(warp_idx);
    }

    proof fn order_wf(v: GtoScheduler, slots: Seq<WarpSlot>) {
        match v.last_issued {
            Option::None => {
                lemma_sort_by_age_multiset(slots);
            },
            Option::Some(w) => {
                lemma_slots_without_multiset(slots, w);
                lemma_sort_by_age_multiset(slots_without(slots, w));
                let sorted = warp_idxs(sort_by_age(slots_without(slots, w)));
                if warp_idxs(slots).contains(w) {
                    lemma_multiset_commutative(seq![w], sorted);
                    assert(seq![w].to_multiset() =~= Multiset::<usize>::empty().insert(w));
                    assert((seq![w] + sorted).to_multiset() =~= sorted.to_multiset().insert(w));
                }
            },
        }
    }

    proof fn compatible_after_record(v: GtoScheduler, slots: Seq<WarpSlot>, warp_idx: usize) {
    }

    proof fn compatible_same_idxs(v: GtoScheduler, slots1: Seq<WarpSlot>, slots2: Seq<WarpSlot>) {
    }

    fn name(&self) -> (r: &'static str) {
        "GTO"
    }
}

// ---------------------------------------------------------------------------
// Two-Level Active Warp Scheduler
// ---------------------------------------------------------------------------

/// A sequence of warp indices without repetition.
pub open spec fn distinct_usize(s: Seq<usize>) -> bool {
    forall|i: int, j: int| 0 <= i < j < s.len() ==> s[i] != s[j]
}

/// Membership across a push, spelled out for the solver.
proof fn lemma_push_contains(s: Seq<usize>, x: usize, v: usize)
    ensures
        s.push(x).contains(v) <==> (s.contains(v) || v == x),
{
    assert(s.push(x)[s.len() as int] == x);
    if s.contains(v) {
        let i = choose|i: int| 0 <= i < s.len() && s[i] == v;
        assert(s.push(x)[i] == v);
    }
    if s.push(x).contains(v) {
        let i = choose|i: int| 0 <= i < s.push(x).len() && s.push(x)[i] == v;
        if i < s.len() {
            assert(s[i] == v);
        }
    }
}

/// The active set after promotion: pending warps (slots whose index is not
/// yet active) fill the vacant active slots in slot order until the set
/// reaches `cap`.
pub open spec fn promote_seq(active: Seq<usize>, slots: Seq<WarpSlot>, cap: usize) -> Seq<usize>
    decreases slots.len(),
{
    if slots.len() == 0 || active.len() >= cap {
        active
    } else if active.contains(slots[0].warp_idx) {
        promote_seq(active, slots.drop_first(), cap)
    } else {
        promote_seq(active.push(slots[0].warp_idx), slots.drop_first(), cap)
    }
}

/// The warp indices of the slots that are not in the active set, in slot
/// order.
pub open spec fn pending_idxs(slots: Seq<WarpSlot>, active: Seq<usize>) -> Seq<usize>
    decreases slots.len(),
{
    if slots.len() == 0 {
        Seq::empty()
    } else if active.contains(slots.last().warp_idx) {
        pending_idxs(slots.drop_last(), active)
    } else {
        pending_idxs(slots.drop_last(), active).push(slots.last().warp_idx)
    }
}

/// Position of the first occurrence of `w` in `s`, or `s.len()` if absent.
pub open spec fn first_pos_usize(s: Seq<usize>, w: usize) -> int
    decreases s.len(),
{
    if s.len() == 0 {
        0
    } else if s[0] == w {
        0
    } else {
        1 + first_pos_usize(s.drop_first(), w)
    }
}

pub proof fn lemma_first_pos_usize(s: Seq<usize>, w: usize)
    ensures
        0 <= first_pos_usize(s, w) <= s.len(),
        first_pos_usize(s, w) < s.len() ==> s[first_pos_usize(s, w)] == w,
        forall|j: int| 0 <= j < first_pos_usize(s, w) ==> s[j] != w,
        s.contains(w) <==> first_pos_usize(s, w) < s.len(),
    decreases s.len(),
{
    if s.len() > 0 && s[0] != w {
        lemma_first_pos_usize(s.drop_first(), w);
        assert forall|j: int| 0 <= j < first_pos_usize(s, w) implies s[j] != w by {
            if j > 0 {
                assert(s.drop_first()[j - 1] == s[j]);
            }
        }
        if s.contains(w) {
            let i = choose|i: int| 0 <= i < s.len() && s[i] == w;
            assert(s.drop_first()[i - 1] == w);
        }
        if s.drop_first().contains(w) {
            let i = choose|i: int| 0 <= i < s.drop_first().len() && s.drop_first()[i] == w;
            assert(s[i + 1] == w);
        }
    }
}

/// Promotion keeps the active set duplicate-free and only ever adds warp
/// indices that the slot list names.
proof fn lemma_promote_props(active: Seq<usize>, slots: Seq<WarpSlot>, cap: usize)
    requires
        distinct_usize(active),
    ensures
        distinct_usize(promote_seq(active, slots, cap)),
        forall|v: usize|
            #[trigger] promote_seq(active, slots, cap).contains(v) ==> active.contains(v)
                || warp_idxs(slots).contains(v),
    decreases slots.len(),
{
    if slots.len() == 0 || active.len() >= cap {
    } else {
        let x = slots[0].warp_idx;
        assert(warp_idxs(slots)[0] == x);
        assert forall|v: usize| #[trigger]
            warp_idxs(slots.drop_first()).contains(v) implies warp_idxs(slots).contains(v) by {
            let i = choose|i: int|
                0 <= i < warp_idxs(slots.drop_first()).len() && warp_idxs(slots.drop_first())[i]
                    == v;
            assert(warp_idxs(slots)[i + 1] == v);
        }
        if active.contains(x) {
            lemma_promote_props(active, slots.drop_first(), cap);
        } else {
            assert(distinct_usize(active.push(x))) by {
                assert forall|i: int, j: int|
                    0 <= i < j < active.push(x).len() implies active.push(x)[i] != active.push(
                    x,
                )[j] by {
                    if j == active.len() {
                        if active.push(x)[i] == x {
                            assert(active[i] == x);
                        }
                    }
                }
            }
            lemma_promote_props(active.push(x), slots.drop_first(), cap);
            assert forall|v: usize| #[trigger]
                promote_seq(active, slots, cap).contains(v) implies active.contains(v)
                || warp_idxs(slots).contains(v) by {
                lemma_push_contains(active, x, v);
            }
        }
    }
}

/// With an empty active set everything is pending, in slot order.
proof fn lemma_pending_empty(slots: Seq<WarpSlot>)
    ensures
        pending_idxs(slots, Seq::<usize>::empty()) == warp_idxs(slots),
    decreases slots.len(),
{
    if slots.len() == 0 {
        assert(pending_idxs(slots, Seq::<usize>::empty()) =~= warp_idxs(slots));
    } else {
        lemma_pending_empty(slots.drop_last());
        assert(warp_idxs(slots) =~= warp_idxs(slots.drop_last()).push(slots.last().warp_idx));
        assert(pending_idxs(slots, Seq::<usize>::empty()) =~= warp_idxs(slots));
    }
}

/// Removing the unique slot of an active warp from the slot list leaves the
/// pending pool unchanged.
proof fn lemma_pending_without(slots: Seq<WarpSlot>, act: Seq<usize>, w: usize)
    requires
        distinct_idxs(slots),
    ensures
        pending_idxs(slots, act.push(w)) == pending_idxs(slots_without(slots, w), act),
    decreases slots.len(),
{
    if slots.len() == 0 {
        assert(pending_idxs(slots, act.push(w)) =~= pending_idxs(slots_without(slots, w), act));
    } else {
        let last = slots.last();
        assert(distinct_idxs(slots.drop_last()));
        lemma_pending_without(slots.drop_last(), act, w);
        lemma_push_contains(act, w, last.warp_idx);
        if last.warp_idx == w {
            assert(act.push(w).contains(last.warp_idx));
        } else {
            assert(slots_without(slots, w) == slots_without(slots.drop_last(), w).push(last));
            assert(slots_without(slots.drop_last(), w).push(last).drop_last() =~= slots_without(
                slots.drop_last(),
                w,
            ));
            assert(pending_idxs(slots, act.push(w)) =~= pending_idxs(
                slots_without(slots, w),
                act,
            ));
        }
    }
}

/// The active set and the pending pool together carry exactly the slot
/// list's warp indices (as a multiset).
proof fn lemma_active_pending_partition(slots: Seq<WarpSlot>, act: Seq<usize>)
    requires
        distinct_idxs(slots),
        distinct_usize(act),
        forall|k: int| 0 <= k < act.len() ==> warp_idxs(slots).contains(act[k]),
    ensures
        act.to_multiset().add(pending_idxs(slots, act).to_multiset()) == warp_idxs(
            slots,
        ).to_multiset(),
    decreases act.len(),
{
    if act.len() == 0 {
        lemma_pending_empty(slots);
        assert(act =~= Seq::<usize>::empty());
        assert(act.to_multiset() =~= Multiset::<usize>::empty());
        assert(act.to_multiset().add(pending_idxs(slots, act).to_multiset()) =~= warp_idxs(
            slots,
        ).to_multiset());
    } else {
        let w = act.last();
        let act2 = act.drop_last();
        let slots2 = slots_without(slots, w);
        assert(act =~= act2.push(w));
        lemma_slots_without_multiset(slots, w);
        lemma_pending_without(slots, act2, w);
        assert(warp_idxs(slots).contains(w));
        // the reduced active set only names warps of the reduced slot list
        assert forall|k: int| 0 <= k < act2.len() implies warp_idxs(slots2).contains(
            act2[k],
        ) by {
            assert(act[k] == act2[k]);
            assert(act2[k] != w);
        }
        lemma_active_pending_partition(slots2, act2);
        let am = act2.to_multiset();
        let pm = pending_idxs(slots2, act2).to_multiset();
        assert(pending_idxs(slots, act) == pending_idxs(slots2, act2));
        assert(act.to_multiset() =~= am.insert(w));
        assert(am.insert(w).add(pm) =~= am.add(pm).insert(w));
        assert(warp_idxs(slots).to_multiset() =~= warp_idxs(slots2).to_multiset().insert(w));
    }
}

/// Maintains a bounded active set of warps scheduled round-robin; the rest
/// sit in a pending pool and fill vacant active slots in slot order.
pub struct TwoLevelScheduler {
    /// Bound on the active set length.
    pub active_set_size: usize,
    /// Warp indices currently in the active set, in insertion order.
    pub active_set: Vec<usize>,
    /// Round-robin cursor within the active set.
    pub last_issued_pos: usize,
}

impl View for TwoLevelScheduler {
    /// (active set bound, active set contents, round-robin cursor)
    type V = (usize, Seq<usize>, usize);

    open spec fn view(&self) -> (usize, Seq<usize>, usize) {
        (self.active_set_size, self.active_set@, self.last_issued_pos)
    }
}

impl TwoLevelScheduler {
    pub fn new(active_set_size: usize) -> (s: TwoLevelScheduler)
        ensures
            s@ == (active_set_size, Seq::<usize>::empty(), 0usize),
    {
        let s = TwoLevelScheduler { active_set_size, active_set: Vec::new(), last_issued_pos: 0 };
        proof {
            assert(s.active_set@ =~= Seq::<usize>::empty());
        }
        s
    }
}

/// Whether `v` holds the warp index `w`.
fn contains_idx(v: &Vec<usize>, w: usize) -> (r: bool)
    ensures
        r == v@.contains(w),
{
    let n = v.len();
    let mut i: usize = 0;
    while i < n
        invariant
            i <= n,
            n == v@.len(),
            forall|j: int| 0 <= j < i ==> v@[j] != w,
        decreases n - i,
    {
        if v[i] == w {
            return true;
        }
        i = i + 1;
    }
    false
}

impl WarpScheduler for TwoLevelScheduler {
    /// Promotion: pending warps fill vacant active slots in slot order.
    open spec fn spec_promote(v: (usize, Seq<usize>, usize), slots: Seq<WarpSlot>) -> (
        usize,
        Seq<usize>,
        usize,
    ) {
        (v.0, promote_seq(v.1, slots, v.0), v.2)
    }

    /// Active-set warps first, rotated to start after the cursor, then the
    /// pending warps in slot order.
    open spec fn spec_order(v: (usize, Seq<usize>, usize), slots: Seq<WarpSlot>) -> Seq<usize> {
        let a = promote_seq(v.1, slots, v.0);
        let pend = pending_idxs(slots, a);
        if a.len() == 0 {
            pend
        } else {
            let s = (v.2 as int) % (a.len() as int);
            a.subrange(s + 1, a.len() as int) + a.subrange(0, s + 1) + pend
        }
    }

    /// The cursor moves to the issued warp's place in the active set;
    /// issuing a pending warp leaves the cursor alone.
    open spec fn spec_record(v: (usize, Seq<usize>, usize), warp_idx: usize) -> (
        usize,
        Seq<usize>,
        usize,
    ) {
        if v.1.contains(warp_idx) {
            (v.0, v.1, first_pos_usize(v.1, warp_idx) as usize)
        } else {
            v
        }
    }

    /// The active set must be duplicate-free and name only warps of the
    /// slot list.
    open spec fn spec_compatible(v: (usize, Seq<usize>, usize), slots: Seq<WarpSlot>) -> bool {
        distinct_usize(v.1) && (forall|k: int|
            0 <= k < v.1.len() ==> warp_idxs(slots).contains(v.1[k]))
    }

    open spec fn spec_name(v: (usize, Seq<usize>, usize)) -> Seq<char> {
        "TwoLevel"@
    }

    fn order_warps(&mut self, slots: &Vec<WarpSlot>) -> (r: Vec<usize>)
    {
        let ghost v0 = self@;
        let n = slots.len();

        // Promote pending warps into vacant active slots, in slot order.
        let mut i: usize = 0;
        proof {
            assert(slots@.skip(0) =~= slots@);
        }
        while i < n
            invariant
                i <= n,
                n == slots@.len(),
                self.active_set_size == v0.0,
                self.last_issued_pos == v0.2,
                promote_seq(v0.1, slots@, v0.0) == promote_seq(
                    self.active_set@,
                    slots@.skip(i as int),
                    v0.0,
                ),
            decreases n - i,
        {
            proof {
                assert(slots@.skip(i as int)[0] == slots@[i as int]);
                assert(slots@.skip(i as int).drop_first() =~= slots@.skip(i + 1));
            }
            if self.active_set.len() < self.active_set_size {
                if !contains_idx(&self.active_set, slots[i].warp_idx) {
                    self.active_set.push(slots[i].warp_idx);
                }
            }
            i = i + 1;
        }
        proof {
            assert(slots@.skip(n as int) =~= Seq::<WarpSlot>::empty());
            assert(self.active_set@ == promote_seq(v0.1, slots@, v0.0));
        }
        let ghost a = self.active_set@;

        // Active-set warps first, in rotation starting after the cursor.
        let m = self.active_set.len();
        let mut r: Vec<usize> = Vec::new();
        let ghost start: int = if m > 0 {
            (v0.2 as int) % (m as int)
        } else {
            0
        };
        if m > 0 {
            let s = self.last_issued_pos % m;
            let mut k: usize = s + 1;
            while k < m
                invariant
                    s < m <= usize::MAX,
                    s as int == start,
                    m == a.len(),
                    a == self.active_set@,
                    s + 1 <= k <= m,
                    r@ =~= a.subrange(start + 1, k as int),
                decreases m - k,
            {
                let x = self.active_set[k];
                r.push(x);
                proof {
                    assert(r@ =~= a.subrange(start + 1, k + 1));
                }
                k = k + 1;
            }
            let mut k2: usize = 0;
            while k2 < s + 1
                invariant
                    s < m <= usize::MAX,
                    s as int == start,
                    m == a.len(),
                    a == self.active_set@,
                    k2 <= s + 1,
                    r@ =~= a.subrange(start + 1, m as int) + a.subrange(0, k2 as int),
                decreases s + 1 - k2,
            {
                let x = self.active_set[k2];
                r.push(x);
                proof {
                    assert(r@ =~= a.subrange(start + 1, m as int) + a.subrange(0, k2 + 1));
                }
                k2 = k2 + 1;
            }
        }
        let ghost rot = r@;

        // Pending warps as fallback, in slot order.
        let mut i2: usize = 0;
        proof {
            assert(pending_idxs(slots@.take(0), a) =~= Seq::<usize>::empty());
            assert(r@ =~= rot + pending_idxs(slots@.take(0), a));
        }
        while i2 < n
            invariant
                i2 <= n,
                n == slots@.len(),
                a == self.active_set@,
                r@ =~= rot + pending_idxs(slots@.take(i2 as int), a),
            decreases n - i2,
        {
            proof {
                assert(slots@.take(i2 + 1).drop_last() =~= slots@.take(i2 as int));
                assert(slots@.take(i2 + 1).last() == slots@[i2 as int]);
            }
            if !contains_idx(&self.active_set, slots[i2].warp_idx) {
                r.push(slots[i2].warp_idx);
            }
            i2 = i2 + 1;
        }
        proof {
            assert(slots@.take(n as int) =~= slots@);
            assert(r@ =~= rot + pending_idxs(slots@, a));
            if m > 0 {
                assert(r@ =~= Self::spec_order(v0, slots@));
            } else {
                assert(a =~= Seq::<usize>::empty());
                assert(r@ =~= Self::spec_order(v0, slots@));
            }

            if Self::spec_compatible(v0, slots@) {
                lemma_promote_props(v0.1, slots@, v0.0);
                assert forall|k: int| 0 <= k < a.len() implies warp_idxs(slots@).contains(
                    a[k],
                ) by {
                    assert(a.contains(a[k]));
                }
                lemma_active_pending_partition(slots@, a);
                if m > 0 {
                    lemma_multiset_commutative(
                        a.subrange(start + 1, m as int),
                        a.subrange(0, start + 1),
                    );
                    assert(a.subrange(0, start + 1) + a.subrange(start + 1, m as int) =~= a);
                    lemma_multiset_commutative(
                        a.subrange(0, start + 1),
                        a.subrange(start + 1, m as int),
                    );
                    assert(rot.to_multiset() == a.to_multiset());
                }
                lemma_multiset_commutative(rot, pending_idxs(slots@, a));
                if m == 0 {
                    assert(rot =~= Seq::<usize>::empty());
                    assert(rot.to_multiset() =~= a.to_multiset());
                }
                assert(r@.to_multiset() == warp_idxs(slots@).to_multiset());
            }
        }
        r
    }

    fn record_issued(&mut self, warp_idx: usize) {
        let ghost v0 = self@;
        proof {
            lemma_first_pos_usize(self.active_set@, warp_idx);
        }
        let n = self.active_set.len();
        let mut i: usize = 0;
        while i < n
            invariant
                i <= n,
                n == self.active_set@.len(),
                *self == *old(self),
                forall|j: int| 0 <= j < i ==> self.active_set@[j] != warp_idx,
            decreases n - i,
        {
            if self.active_set[i] == warp_idx {
                proof {
                    lemma_first_pos_usize(self.active_set@, warp_idx);
                    assert(i as int == first_pos_usize(self.active_set@, warp_idx));
                    assert(self.active_set@.contains(warp_idx));
                }
                self.last_issued_pos = i;
                return ;
            }
            i = i + 1;
        }
        proof {
            lemma_first_pos_usize(self.active_set@, warp_idx);
            assert(!self.active_set@.contains(warp_idx));
        }
    }

    proof fn order_wf(v: (usize, Seq<usize>, usize), slots: Seq<WarpSlot>) {
        lemma_promote_props(v.1, slots, v.0);
        let a = promote_seq(v.1, slots, v.0);
        assert forall|k: int| 0 <= k < a.len() implies warp_idxs(slots).contains(a[k]) by {
            assert(a.contains(a[k]));
        }
        lemma_active_pending_partition(slots, a);
        let pend = pending_idxs(slots, a);
        if a.len() == 0 {
            assert(a =~= Seq::<usize>::empty());
            assert(TwoLevelScheduler::spec_order(v, slots).to_multiset() =~= warp_idxs(
                slots,
            ).to_multiset());
        } else {
            let st = (v.2 as int) % (a.len() as int);
            lemma_multiset_commutative(a.subrange(st + 1, a.len() as int), a.subrange(0, st + 1));
            lemma_multiset_commutative(a.subrange(0, st + 1), a.subrange(st + 1, a.len() as int));
            assert(a.subrange(0, st + 1) + a.subrange(st + 1, a.len() as int) =~= a);
            let rot = a.subrange(st + 1, a.len() as int) + a.subrange(0, st + 1);
            lemma_multiset_commutative(rot, pend);
            assert(rot.to_multiset() == a.to_multiset());
        }
    }

    proof fn compatible_after_record(
        v: (usize, Seq<usize>, usize),
        slots: Seq<WarpSlot>,
        warp_idx: usize,
    ) {
    }

    proof fn compatible_same_idxs(
        v: (usize, Seq<usize>, usize),
        slots1: Seq<WarpSlot>,
        slots2: Seq<WarpSlot>,
    ) {
    }

    fn name(&self) -> (r: &'static str) {
        "TwoLevel"
    }
}

// ---------------------------------------------------------------------------
// Policy selector
// ---------------------------------------------------------------------------

/// Selectable warp scheduling policy.
#[derive(Debug, Clone, Copy, PartialEq, Eq, Structural)]
pub enum SchedulingPolicy {
    /// Loose Round-Robin.
    Lrr,
    /// Greedy-Then-Oldest.
    Gto,
    /// Two-Level active warp scheduling.
    TwoLevel {
        /// Number of warps in the active set (typically 4 to 8).
        active_set_size: usize,
    },
}

/// The abstract state of a scheduler built from a policy.
pub ghost enum SchedulerState {
    Lrr(LrrScheduler),
    Gto(GtoScheduler),
    TwoLevel((usize, Seq<usize>, usize)),
}

/// A scheduler of any of the three policies, dispatched by variant so the
/// executor does not depend on the policy choice.
pub enum AnyScheduler {
    Lrr(LrrScheduler),
    Gto(GtoScheduler),
    TwoLevel(TwoLevelScheduler),
}

impl View for AnyScheduler {
    type V = SchedulerState;

    open spec fn view(&self) -> SchedulerState {
        match self {
            AnyScheduler::Lrr(s) => SchedulerState::Lrr(s@),
            AnyScheduler::Gto(s) => SchedulerState::Gto(s@),
            AnyScheduler::TwoLevel(s) => SchedulerState::TwoLevel(s@),
        }
    }
}

impl SchedulingPolicy {
    /// The initial abstract state of the scheduler this policy builds.
    pub open spec fn spec_initial_state(&self) -> SchedulerState {
        match *self {
            SchedulingPolicy::Lrr => SchedulerState::Lrr(LrrScheduler { last_issued: 0usize }),
            SchedulingPolicy::Gto => SchedulerState::Gto(
                GtoScheduler { last_issued: Option::<usize>::None },
            ),
            SchedulingPolicy::TwoLevel { active_set_size } => SchedulerState::TwoLevel(
                (active_set_size, Seq::<usize>::empty(), 0usize),
            ),
        }
    }

    pub open spec fn spec_name(&self) -> Seq<char> {
        match *self {
            SchedulingPolicy::Lrr => "LRR"@,
            SchedulingPolicy::Gto => "GTO"@,
            SchedulingPolicy::TwoLevel { .. } => "TwoLevel"@,
        }
    }

    /// Build a scheduler in its initial state.
    pub fn build(self) -> (s: AnyScheduler)
        ensures
            s@ == self.spec_initial_state(),
            AnyScheduler::spec_name(s@) == self.spec_name(),
    {
        match self {
            SchedulingPolicy::Lrr => AnyScheduler::Lrr(LrrScheduler::new()),
            SchedulingPolicy::Gto => AnyScheduler::Gto(GtoScheduler::new()),
            SchedulingPolicy::TwoLevel { active_set_size } => AnyScheduler::TwoLevel(
                TwoLevelScheduler::new(active_set_size),
            ),
        }
    }

    pub fn name(&self) -> (r: &'static str)
        ensures
            r@ == self.spec_name(),
    {
        match self {
            SchedulingPolicy::Lrr => "LRR",
            SchedulingPolicy::Gto => "GTO",
            SchedulingPolicy::TwoLevel { .. } => "TwoLevel",
        }
    }
}

/// A freshly built scheduler is compatible with every slot list: its
/// state names no warp at all.
pub proof fn lemma_initial_state_compatible(policy: SchedulingPolicy, slots: Seq<WarpSlot>)
    ensures
        AnyScheduler::spec_compatible(policy.spec_initial_state(), slots),
{
    match policy {
        SchedulingPolicy::TwoLevel { active_set_size } => {
            assert(distinct_usize(Seq::<usize>::empty()));
        },
        _ => {},
    }
}

impl WarpScheduler for AnyScheduler {
    open spec fn spec_promote(v: SchedulerState, slots: Seq<WarpSlot>) -> SchedulerState {
        match v {
            SchedulerState::Lrr(x) => SchedulerState::Lrr(LrrScheduler::spec_promote(x, slots)),
            SchedulerState::Gto(x) => SchedulerState::Gto(GtoScheduler::spec_promote(x, slots)),
            SchedulerState::TwoLevel(x) => SchedulerState::TwoLevel(
                TwoLevelScheduler::spec_promote(x, slots),
            ),
        }
    }

    open spec fn spec_order(v: SchedulerState, slots: Seq<WarpSlot>) -> Seq<usize> {
        match v {
            SchedulerState::Lrr(x) => LrrScheduler::spec_order(x, slots),
            SchedulerState::Gto(x) => GtoScheduler::spec_order(x, slots),
            SchedulerState::TwoLevel(x) => TwoLevelScheduler::spec_order(x, slots),
        }
    }

    open spec fn spec_record(v: SchedulerState, warp_idx: usize) -> SchedulerState {
        match v {
            SchedulerState::Lrr(x) => SchedulerState::Lrr(LrrScheduler::spec_record(x, warp_idx)),
            SchedulerState::Gto(x) => SchedulerState::Gto(GtoScheduler::spec_record(x, warp_idx)),
            SchedulerState::TwoLevel(x) => SchedulerState::TwoLevel(
                TwoLevelScheduler::spec_record(x, warp_idx),
            ),
        }
    }

    open spec fn spec_compatible(v: SchedulerState, slots: Seq<WarpSlot>) -> bool {
        match v {
            SchedulerState::Lrr(x) => LrrScheduler::spec_compatible(x, slots),
            SchedulerState::Gto(x) => GtoScheduler::spec_compatible(x, slots),
            SchedulerState::TwoLevel(x) => TwoLevelScheduler::spec_compatible(x, slots),
        }
    }

    open spec fn spec_name(v: SchedulerState) -> Seq<char> {
        match v {
            SchedulerState::Lrr(x) => LrrScheduler::spec_name(x),
            SchedulerState::Gto(x) => GtoScheduler::spec_name(x),
            SchedulerState::TwoLevel(x) => TwoLevelScheduler::spec_name(x),
        }
    }

    fn order_warps(&mut self, slots: &Vec<WarpSlot>) -> (r: Vec<usize>)
    {
        match self {
            AnyScheduler::Lrr(s) => s.order_warps(slots),
            AnyScheduler::Gto(s) => s.order_warps(slots),
            AnyScheduler::TwoLevel(s) => s.order_warps(slots),
        }
    }

    fn record_issued(&mut self, warp_idx: usize) {
        match self {
            AnyScheduler::Lrr(s) => s.record_issued(warp_idx),
            AnyScheduler::Gto(s) => s.record_issued(warp_idx),
            AnyScheduler::TwoLevel(s) => s.record_issued(warp_idx),
        }
    }

    proof fn order_wf(v: SchedulerState, slots: Seq<WarpSlot>) {
        match v {
            SchedulerState::Lrr(x) => LrrScheduler::order_wf(x, slots),
            SchedulerState::Gto(x) => GtoScheduler::order_wf(x, slots),
            SchedulerState::TwoLevel(x) => TwoLevelScheduler::order_wf(x, slots),
        }
    }

    proof fn compatible_after_record(v: SchedulerState, slots: Seq<WarpSlot>, warp_idx: usize) {
        match v {
            SchedulerState::Lrr(x) => LrrScheduler::compatible_after_record(x, slots, warp_idx),
            SchedulerState::Gto(x) => GtoScheduler::compatible_after_record(x, slots, warp_idx),
            SchedulerState::TwoLevel(x) => TwoLevelScheduler::compatible_after_record(
                x,
                slots,
                warp_idx,
            ),
        }
    }

    proof fn compatible_same_idxs(
        v: SchedulerState,
        slots1: Seq<WarpSlot>,
        slots2: Seq<WarpSlot>,
    ) {
        match v {
            SchedulerState::Lrr(x) => LrrScheduler::compatible_same_idxs(x, slots1, slots2),
            SchedulerState::Gto(x) => GtoScheduler::compatible_same_idxs(x, slots1, slots2),
            SchedulerState::TwoLevel(x) => TwoLevelScheduler::compatible_same_idxs(
                x,
                slots1,
                slots2,
            ),
        }
    }

    fn name(&self) -> (r: &'static str) {
        match self {
            AnyScheduler::Lrr(s) => s.name(),
            AnyScheduler::Gto(s) => s.name(),
            AnyScheduler::TwoLevel(s) => s.name(),
        }
    }
}

} // verus!
