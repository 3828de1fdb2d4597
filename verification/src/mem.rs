//! Sparse physical memory: a sorted set of non-overlapping byte regions,
//! each a fixed-size buffer keyed by its base address. A read or write
//! succeeds only when the requested range lies wholly inside one region.

use vstd::prelude::*;

verus! {

/// One memory region: a fixed buffer starting at `base`.
struct Region {
    base: u64,
    data: Vec<u8>,
}

/// A region strictly contains the address `addr`.
pub open spec fn contains_addr(r: (u64, Seq<u8>), addr: u64) -> bool {
    r.0 <= addr < r.0 + r.1.len()
}

/// The byte range `[addr, addr + len)` lies wholly inside the region,
/// and `addr` itself is strictly inside it.
pub open spec fn range_in(r: (u64, Seq<u8>), addr: u64, len: nat) -> bool {
    contains_addr(r, addr) && addr + len <= r.0 + r.1.len()
}

/// Well-formed region list: every region is non-empty and ends within the
/// 64-bit address space, and regions are sorted and pairwise disjoint.
pub open spec fn mem_wf(m: Seq<(u64, Seq<u8>)>) -> bool {
    &&& forall|i: int|
        0 <= i < m.len() ==> 0 < (#[trigger] m[i]).1.len() && m[i].0 + m[i].1.len()
            <= 0x1_0000_0000_0000_0000
    &&& forall|i: int, j: int|
        0 <= i < j < m.len() ==> (#[trigger] m[i]).0 + m[i].1.len() <= (#[trigger] m[j]).0
}

/// The index of the region that serves `[addr, addr + len)`, or -1.
pub open spec fn mem_find(m: Seq<(u64, Seq<u8>)>, addr: u64, len: nat) -> int {
    if exists|i: int| 0 <= i < m.len() && #[trigger] range_in(m[i], addr, len) {
        choose|i: int| 0 <= i < m.len() && #[trigger] range_in(m[i], addr, len)
    } else {
        -1
    }
}

/// The bytes at `[addr, addr + len)`, if one region wholly contains them.
pub open spec fn mem_read(m: Seq<(u64, Seq<u8>)>, addr: u64, len: nat) -> Option<Seq<u8>> {
    let i = mem_find(m, addr, len);
    if i >= 0 {
        Some(m[i].1.subrange(addr - m[i].0, addr - m[i].0 + len))
    } else {
        None
    }
}

/// `d` with the bytes at `[off, off + b.len())` replaced by `b`.
pub open spec fn splice(d: Seq<u8>, off: int, b: Seq<u8>) -> Seq<u8> {
    d.subrange(0, off) + b + d.subrange(off + b.len(), d.len() as int)
}

/// The region list after writing `bytes` at `addr`, if one region wholly
/// contains the range.
pub open spec fn mem_write(m: Seq<(u64, Seq<u8>)>, addr: u64, bytes: Seq<u8>) -> Option<
    Seq<(u64, Seq<u8>)>,
> {
    let i = mem_find(m, addr, bytes.len());
    if i >= 0 {
        Some(m.update(i, (m[i].0, splice(m[i].1, addr - m[i].0, bytes))))
    } else {
        None
    }
}

/// A sequence of `n` zero bytes.
pub open spec fn zeros(n: nat) -> Seq<u8> {
    Seq::new(n, |x: int| 0u8)
}

/// The range `[base, base + size)` intersects the (non-empty) region `r`.
pub open spec fn overlaps(r: (u64, Seq<u8>), base: u64, size: nat) -> bool {
    base < r.0 + r.1.len() && r.0 < base + size
}

/// A new region at `[base, base + size)` may be added: it is non-empty,
/// fits in the address space, and intersects no existing region.
pub open spec fn can_add(m: Seq<(u64, Seq<u8>)>, base: u64, size: nat) -> bool {
    &&& 0 < size
    &&& base + size <= 0x1_0000_0000_0000_0000
    &&& forall|i: int| 0 <= i < m.len() ==> !overlaps(#[trigger] m[i], base, size)
}

/// In a well-formed region list, at most one region contains an address.
pub proof fn lemma_contains_unique(m: Seq<(u64, Seq<u8>)>, addr: u64, i: int, j: int)
    requires
        mem_wf(m),
        0 <= i < m.len(),
        0 <= j < m.len(),
        contains_addr(m[i], addr),
        contains_addr(m[j], addr),
    ensures
        i == j,
{
    if i < j {
        assert(m[i].0 + m[i].1.len() <= m[j].0);
    } else if j < i {
        assert(m[j].0 + m[j].1.len() <= m[i].0);
    }
}

/// If region `i` serves the range, `mem_find` returns exactly `i`.
pub proof fn lemma_find_is(m: Seq<(u64, Seq<u8>)>, addr: u64, len: nat, i: int)
    requires
        mem_wf(m),
        0 <= i < m.len(),
        range_in(m[i], addr, len),
    ensures
        mem_find(m, addr, len) == i,
{
    let j = choose|j: int| 0 <= j < m.len() && #[trigger] range_in(m[j], addr, len);
    lemma_contains_unique(m, addr, i, j);
}

/// A write leaves the region list well-formed: bases and lengths are kept.
pub proof fn lemma_write_wf(m: Seq<(u64, Seq<u8>)>, addr: u64, bytes: Seq<u8>)
    requires
        mem_wf(m),
        mem_write(m, addr, bytes) is Some,
    ensures
        mem_wf(mem_write(m, addr, bytes).unwrap()),
        mem_write(m, addr, bytes).unwrap().len() == m.len(),
        forall|k: int|
            0 <= k < m.len() ==> (#[trigger] mem_write(m, addr, bytes).unwrap()[k]).0 == m[k].0
                && mem_write(m, addr, bytes).unwrap()[k].1.len() == m[k].1.len(),
{
    let i = mem_find(m, addr, bytes.len());
    let m2 = mem_write(m, addr, bytes).unwrap();
    assert(range_in(m[i], addr, bytes.len()));
    assert(m2[i].1.len() == m[i].1.len());
}

/// Reading back a range just written returns the written bytes.
pub proof fn lemma_write_then_read(m: Seq<(u64, Seq<u8>)>, addr: u64, bytes: Seq<u8>)
    requires
        mem_wf(m),
        mem_write(m, addr, bytes) is Some,
    ensures
        mem_read(mem_write(m, addr, bytes).unwrap(), addr, bytes.len()) == Some(bytes),
{
    let i = mem_find(m, addr, bytes.len());
    let m2 = mem_write(m, addr, bytes).unwrap();
    lemma_write_wf(m, addr, bytes);
    assert(range_in(m[i], addr, bytes.len()));
    assert(range_in(m2[i], addr, bytes.len()));
    lemma_find_is(m2, addr, bytes.len(), i);
    let off = addr - m[i].0;
    assert(m2[i].1.subrange(off, off + bytes.len()) =~= bytes);
}

/// Sparse physical memory.
pub struct Memory {
    regions: Vec<Region>,
}

impl View for Memory {
    type V = Seq<(u64, Seq<u8>)>;

    closed spec fn view(&self) -> Seq<(u64, Seq<u8>)> {
        self.regions@.map_values(|r: Region| (r.base, r.data@))
    }
}

impl Memory {
    /// The region list is well-formed.
    pub open spec fn wf(&self) -> bool {
        mem_wf(self@)
    }

    /// An empty memory: no regions at all.
    pub fn new() -> (r: Memory)
        ensures
            r@ == Seq::<(u64, Seq<u8>)>::empty(),
            r.wf(),
    {
        let m = Memory { regions: Vec::new() };
        proof {
            assert(m@ =~= Seq::<(u64, Seq<u8>)>::empty());
        }
        m
    }

    /// Add a zero-filled region at `[base, base + size)`. Fails exactly
    /// when the region would be empty, would leave the 64-bit address
    /// space, or would intersect an existing region.
    pub fn add_region(&mut self, base: u64, size: usize) -> (r: bool)
        requires
            old(self).wf(),
        ensures
            final(self).wf(),
            r == can_add(old(self)@, base, size as nat),
            r ==> exists|k: int|
                0 <= k <= old(self)@.len() && final(self)@ == #[trigger] old(self)@.insert(
                    k,
                    (base, zeros(size as nat)),
                ),
            !r ==> final(self)@ == old(self)@,
    {
        if size == 0 {
            return false;
        }
        let size64: u64 = size as u64;
        if base > 0 && size64 > u64::MAX - base + 1 {
            return false;
        }
        let ghost mv = self@;
        let n = self.regions.len();
        let mut k: usize = 0;
        let mut i: usize = 0;
        while i < n
            invariant
                self.wf(),
                self@ == mv,
                n == self.regions.len(),
                i <= n,
                k <= i,
                0 < size,
                size64 == size,
                base + size <= 0x1_0000_0000_0000_0000,
                forall|j: int| 0 <= j < i ==> !overlaps(#[trigger] mv[j], base, size as nat),
                forall|j: int| 0 <= j < k ==> (#[trigger] mv[j]).0 < base,
                forall|j: int| k <= j < i ==> base <= (#[trigger] mv[j]).0,
            decreases n - i,
        {
            let rb = self.regions[i].base;
            let rl = self.regions[i].data.len();
            proof {
                assert(mv[i as int] == (rb, self.regions[i as int].data@));
            }
            let ov = if base <= rb {
                rb - base < size64
            } else {
                base - rb < rl as u64
            };
            if ov {
                proof {
                    assert(overlaps(mv[i as int], base, size as nat));
                }
                return false;
            }
            if rb < base {
                k = i + 1;
            }
            i += 1;
        }
        let mut data: Vec<u8> = Vec::new();
        let mut z: usize = 0;
        while z < size
            invariant
                z <= size,
                data@ =~= zeros(z as nat),
            decreases size - z,
        {
            data.push(0u8);
            z += 1;
        }
        self.regions.insert(k, Region { base, data });
        proof {
            let zs = zeros(size as nat);
            assert(self@ =~~= mv.insert(k as int, (base, zs)));
            let m2 = self@;
            assert forall|a: int, b: int| 0 <= a < b < m2.len() implies (#[trigger] m2[a]).0
                + m2[a].1.len() <= (#[trigger] m2[b]).0 by {
                if a == k {
                    assert(base <= m2[b].0 && !overlaps(mv[b - 1], base, size as nat));
                } else if b == k {
                    assert(mv[a].0 < base && !overlaps(mv[a], base, size as nat));
                }
            }
            assert(mem_wf(m2));
        }
        true
    }

    /// The index of the region that wholly contains `[addr, addr + len)`.
    fn find_region(&self, addr: u64, len: usize) -> (r: Option<usize>)
        requires
            self.wf(),
        ensures
            match r {
                Some(i) => i < self@.len() && range_in(self@[i as int], addr, len as nat)
                    && mem_find(self@, addr, len as nat) == i,
                None => mem_find(self@, addr, len as nat) == -1,
            },
    {
        let n = self.regions.len();
        let mut i: usize = 0;
        while i < n
            invariant
                self.wf(),
                n == self.regions.len(),
                i <= n,
                forall|j: int| 0 <= j < i ==> !contains_addr(#[trigger] self@[j], addr),
            decreases n - i,
        {
            let rb = self.regions[i].base;
            let rl = self.regions[i].data.len();
            proof {
                assert(self@[i as int] == (rb, self.regions[i as int].data@));
            }
            if rb <= addr && addr - rb < rl as u64 {
                if len as u64 <= rl as u64 - (addr - rb) {
                    proof {
                        lemma_find_is(self@, addr, len as nat, i as int);
                    }
                    return Some(i);
                } else {
                    proof {
                        assert forall|j: int|
                            !(0 <= j < self@.len() && #[trigger] range_in(
                                self@[j],
                                addr,
                                len as nat,
                            )) by {
                            if 0 <= j < self@.len() && range_in(self@[j], addr, len as nat) {
                                lemma_contains_unique(self@, addr, j, i as int);
                            }
                        }
                    }
                    return None;
                }
            }
            i += 1;
        }
        proof {
            assert forall|j: int|
                !(0 <= j < self@.len() && #[trigger] range_in(self@[j], addr, len as nat)) by {}
        }
        None
    }

    /// A copy of the bytes at `[addr, addr + len)`, if one region wholly
    /// contains them.
    pub fn get_slice(&self, addr: u64, len: usize) -> (r: Option<Vec<u8>>)
        requires
            self.wf(),
        ensures
            match r {
                Some(v) => mem_read(self@, addr, len as nat) == Some(v@),
                None => mem_read(self@, addr, len as nat) is None,
            },
    {
        match self.find_region(addr, len) {
            None => None,
            Some(i) => {
                let off = (addr - self.regions[i].base) as usize;
                let mut out: Vec<u8> = Vec::new();
                let mut j: usize = 0;
                proof {
                    assert(self@[i as int] == (self.regions[i as int].base, self.regions[i as int].data@));
                }
                while j < len
                    invariant
                        self.wf(),
                        i < self.regions.len(),
                        j <= len,
                        self@[i as int].1 == self.regions[i as int].data@,
                        off + len <= self.regions[i as int].data.len(),
                        out@ =~= self.regions[i as int].data@.subrange(
                            off as int,
                            off + j as int,
                        ),
                    decreases len - j,
                {
                    out.push(self.regions[i].data[off + j]);
                    j += 1;
                }
                proof {
                    assert(mem_read(self@, addr, len as nat) == Some(out@));
                }
                Some(out)
            },
        }
    }

    /// Overwrite the bytes at `[addr, addr + bytes.len())` — the exclusive
    /// counterpart of [`Memory::get_slice`]. Succeeds exactly when one
    /// region wholly contains the range.
    pub fn get_slice_mut(&mut self, addr: u64, bytes: &[u8]) -> (r: bool)
        requires
            old(self).wf(),
        ensures
            final(self).wf(),
            r == (mem_write(old(self)@, addr, bytes@) is Some),
            r ==> Some(final(self)@) == mem_write(old(self)@, addr, bytes@),
            !r ==> final(self)@ == old(self)@,
    {
        let ghost mv = self@;
        let len = bytes.len();
        match self.find_region(addr, len) {
            None => false,
            Some(i) => {
                let region = self.regions.remove(i);
                let base = region.base;
                let mut data = region.data;
                let off = (addr - base) as usize;
                proof {
                    assert(mv[i as int] == (base, data@));
                }
                let ghost d0 = data@;
                let mut j: usize = 0;
                while j < len
                    invariant
                        j <= len,
                        len == bytes.len(),
                        off + len <= data.len(),
                        data.len() == d0.len(),
                        forall|q: int| 0 <= q < off ==> data@[q] == d0[q],
                        forall|q: int| off + len <= q < d0.len() ==> data@[q] == d0[q],
                        forall|q: int| 0 <= q < j ==> data@[off + q] == bytes@[q],
                    decreases len - j,
                {
                    data[off + j] = bytes[j];
                    j += 1;
                }
                self.regions.insert(i, Region { base, data });
                proof {
                    lemma_write_wf(mv, addr, bytes@);
                    let m2 = mem_write(mv, addr, bytes@).unwrap();
                    assert(mem_find(mv, addr, bytes@.len()) == i as int);
                    assert(m2[i as int].1 =~= splice(d0, off as int, bytes@));
                    assert(self@ =~~= m2);
                }
                true
            },
        }
    }
}

} // verus!
