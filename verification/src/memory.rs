//! Memory hierarchy simulation.
//!
//! Models the byte-addressed tiers of device memory as sparse maps from
//! address to byte: reading an address that was never written returns 0,
//! and writes are last-writer-wins. Each tier declares a nominal size in
//! bytes, but addressing is not bounds-checked against it.

use vstd::prelude::*;

verus! {

use vstd::hash_map::HashMapWithView;

broadcast use vstd::std_specs::hash::group_hash_axioms;

/// The byte stored at address `a` in a sparse memory: 0 if never written.
pub open spec fn byte_at(m: Map<usize, u8>, a: usize) -> u8 {
    if m.contains_key(a) {
        m[a]
    } else {
        0
    }
}

/// The sparse memory `m` after writing `bytes` starting at address `addr`.
pub open spec fn mem_written(m: Map<usize, u8>, addr: usize, bytes: Seq<u8>) -> Map<usize, u8> {
    Map::new(
        |a: usize| m.contains_key(a) || (addr <= a && a < addr + bytes.len()),
        |a: usize|
            if addr <= a && a < addr + bytes.len() {
                bytes[a - addr]
            } else {
                m[a]
            },
    )
}

/// Writing then reading the same range yields the bytes written, and every
/// address outside the written range keeps its previous (sparse) content.
pub proof fn lemma_write_read_round_trip(m: Map<usize, u8>, addr: usize, bytes: Seq<u8>)
    requires
        addr + bytes.len() <= usize::MAX,
    ensures
        forall|i: int|
            0 <= i < bytes.len() ==> byte_at(mem_written(m, addr, bytes), (addr + i) as usize)
                == bytes[i],
        forall|a: usize|
            !(addr <= a && a < addr + bytes.len()) ==> byte_at(mem_written(m, addr, bytes), a)
                == byte_at(m, a),
{
}

/// Shared second-level cache tier across all compute units.
/// Uses a sparse map to avoid eagerly allocating the full capacity.
pub struct L2Cache {
    pub size_bytes: u64,
    pub data: HashMapWithView<usize, u8>,
}

impl L2Cache {
    /// The sparse contents of this tier: address -> byte written there.
    pub open spec fn view(&self) -> Map<usize, u8> {
        self.data@
    }

    pub fn new(size_bytes: u64) -> (c: L2Cache)
        ensures
            c.size_bytes == size_bytes,
            c@ == Map::<usize, u8>::empty(),
    {
        L2Cache { size_bytes, data: HashMapWithView::new() }
    }

    /// Read `len` bytes starting at `addr`; unwritten addresses read as 0.
    pub fn read(&self, addr: usize, len: usize) -> (r: Vec<u8>)
        requires
            addr + len <= usize::MAX,
        ensures
            r@.len() == len,
            forall|i: int| 0 <= i < len ==> r@[i] == byte_at(self@, (addr + i) as usize),
    {
        let mut r: Vec<u8> = Vec::new();
        let mut i: usize = 0;
        while i < len
            invariant
                i <= len,
                addr + len <= usize::MAX,
                r@.len() == i,
                forall|j: int| 0 <= j < i ==> r@[j] == byte_at(self@, (addr + j) as usize),
            decreases len - i,
        {
            let b = match self.data.get(&(addr + i)) {
                Some(v) => *v,
                None => 0,
            };
            r.push(b);
            i = i + 1;
        }
        r
    }

    /// Write `bytes` starting at `addr`, last-writer-wins.
    pub fn write(&mut self, addr: usize, bytes: &[u8])
        requires
            addr + bytes@.len() <= usize::MAX,
        ensures
            final(self)@ == mem_written(old(self)@, addr, bytes@),
            final(self).size_bytes == old(self).size_bytes,
    {
        let len = bytes.len();
        let mut i: usize = 0;
        while i < len
            invariant
                i <= len,
                len == bytes@.len(),
                addr + len <= usize::MAX,
                self.size_bytes == old(self).size_bytes,
                self@ == mem_written(old(self)@, addr, bytes@.take(i as int)),
            decreases len - i,
        {
            self.data.insert(addr + i, bytes[i]);
            proof {
                assert(self@ =~= mem_written(old(self)@, addr, bytes@.take(i + 1)));
            }
            i = i + 1;
        }
        proof {
            assert(bytes@.take(len as int) =~= bytes@);
        }
    }
}

/// High-bandwidth main device memory: the largest and slowest tier.
/// Uses a sparse map to simulate large address spaces without real allocation.
pub struct HBM {
    pub size_bytes: u64,
    pub data: HashMapWithView<usize, u8>,
    /// Simulated bandwidth in bytes per second.
    pub bandwidth_bps: u64,
}

impl HBM {
    /// The sparse contents of this tier: address -> byte written there.
    pub open spec fn view(&self) -> Map<usize, u8> {
        self.data@
    }

    pub fn new(size_bytes: u64) -> (m: HBM)
        ensures
            m.size_bytes == size_bytes,
            m.bandwidth_bps == 3_400_000_000_000u64,
            m@ == Map::<usize, u8>::empty(),
    {
        HBM { size_bytes, data: HashMapWithView::new(), bandwidth_bps: 3_400_000_000_000 }
    }

    /// Read `len` bytes starting at `addr`; unwritten addresses read as 0.
    pub fn read(&self, addr: usize, len: usize) -> (r: Vec<u8>)
        requires
            addr + len <= usize::MAX,
        ensures
            r@.len() == len,
            forall|i: int| 0 <= i < len ==> r@[i] == byte_at(self@, (addr + i) as usize),
    {
        let mut r: Vec<u8> = Vec::new();
        let mut i: usize = 0;
        while i < len
            invariant
                i <= len,
                addr + len <= usize::MAX,
                r@.len() == i,
                forall|j: int| 0 <= j < i ==> r@[j] == byte_at(self@, (addr + j) as usize),
            decreases len - i,
        {
            let b = match self.data.get(&(addr + i)) {
                Some(v) => *v,
                None => 0,
            };
            r.push(b);
            i = i + 1;
        }
        r
    }

    /// Write `bytes` starting at `addr`, last-writer-wins.
    pub fn write(&mut self, addr: usize, bytes: &[u8])
        requires
            addr + bytes@.len() <= usize::MAX,
        ensures
            final(self)@ == mem_written(old(self)@, addr, bytes@),
            final(self).size_bytes == old(self).size_bytes,
            final(self).bandwidth_bps == old(self).bandwidth_bps,
    {
        let len = bytes.len();
        let mut i: usize = 0;
        while i < len
            invariant
                i <= len,
                len == bytes@.len(),
                addr + len <= usize::MAX,
                self.size_bytes == old(self).size_bytes,
                self.bandwidth_bps == old(self).bandwidth_bps,
                self@ == mem_written(old(self)@, addr, bytes@.take(i as int)),
            decreases len - i,
        {
            self.data.insert(addr + i, bytes[i]);
            proof {
                assert(self@ =~= mem_written(old(self)@, addr, bytes@.take(i + 1)));
            }
            i = i + 1;
        }
        proof {
            assert(bytes@.take(len as int) =~= bytes@);
        }
    }
}

} // verus!
