//! Warp simulation.
//!
//! A warp is a group of 32 threads executing in SIMD lockstep. The
//! `WarpScheduler` here manages one warp's execution within a compute-unit
//! subpartition.

use vstd::prelude::*;

verus! {

/// Standard warp width: 32 lanes.
pub const WARP_SIZE: usize = 32;

/// A warp: 32 threads executing the same instruction in SIMD fashion.
pub struct Warp {
    pub id: usize,
    /// Program counter: which instruction the warp is currently executing.
    pub pc: usize,
    /// Register file for each thread in the warp (32 registers per thread).
    pub registers: Vec<[u32; 32]>,
    pub active: bool,
    /// Launch timestamp; lower means older.
    pub age: u64,
}

impl Warp {
    pub fn new(id: usize) -> (w: Warp)
        ensures
            w.id == id,
            w.pc == 0,
            w.active,
            w.age == 0,
            w.registers@.len() == WARP_SIZE,
            forall|i: int, j: int|
                0 <= i < WARP_SIZE && 0 <= j < 32 ==> w.registers@[i]@[j] == 0u32,
    {
        let mut registers: Vec<[u32; 32]> = Vec::new();
        let mut i: usize = 0;
        while i < WARP_SIZE
            invariant
                i <= WARP_SIZE,
                registers@.len() == i,
                forall|k: int, j: int| 0 <= k < i && 0 <= j < 32 ==> registers@[k]@[j] == 0u32,
            decreases WARP_SIZE - i,
        {
            registers.push([0u32; 32]);
            i = i + 1;
        }
        Warp { id, pc: 0, registers, active: true, age: 0 }
    }

    /// The same warp stamped with a launch-scoped age.
    pub fn with_age(self, age: u64) -> (w: Warp)
        ensures
            w.id == self.id,
            w.pc == self.pc,
            w.registers == self.registers,
            w.active == self.active,
            w.age == age,
    {
        Warp { age, ..self }
    }
}

/// Schedules and manages warp execution within a compute-unit subpartition.
pub struct WarpScheduler {
    pub current_warp: Option<Warp>,
}

impl WarpScheduler {
    pub fn new() -> (s: WarpScheduler)
        ensures
            s.current_warp is None,
    {
        WarpScheduler { current_warp: None }
    }

    pub fn is_idle(&self) -> (r: bool)
        ensures
            r == (self.current_warp is None),
    {
        self.current_warp.is_none()
    }

    pub fn load_warp(&mut self, warp: Warp)
        ensures
            final(self).current_warp == Some(warp),
    {
        self.current_warp = Some(warp);
    }

    /// Advance the program counter by one instruction per tick.
    pub fn tick(&mut self)
        requires
            old(self).current_warp matches Some(w) ==> w.pc < usize::MAX,
        ensures
            match old(self).current_warp {
                Some(w) => final(self).current_warp matches Some(w2) && w2.pc == w.pc + 1
                    && w2.id == w.id && w2.registers == w.registers && w2.active == w.active
                    && w2.age == w.age,
                None => final(self).current_warp is None,
            },
    {
        if let Some(warp) = &mut self.current_warp {
            warp.pc = warp.pc + 1;
        }
    }
}

} // verus!
