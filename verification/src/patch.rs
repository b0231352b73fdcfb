use vstd::prelude::*;

use crate::errors::EngineError;
use crate::mem::{spec_write_bytes, MemoryImage};

verus! {

/// One patched range: `original` is the byte snapshot captured before any
/// modification, `replacement` what the patch writes over it. Both have the
/// same nonzero length.
#[derive(Debug)]
pub struct PatchRegion {
    pub addr: usize,
    pub original: Vec<u8>,
    pub replacement: Vec<u8>,
}

/// The number of bytes the region covers.
pub open spec fn region_len(r: PatchRegion) -> int {
    r.replacement@.len() as int
}

/// The bytes a toggle writes into the region: the replacement when enabling,
/// the captured original when reverting.
pub open spec fn region_data(r: PatchRegion, enable: bool) -> Seq<u8> {
    if enable {
        r.replacement@
    } else {
        r.original@
    }
}

pub open spec fn regions_wf(rs: Seq<PatchRegion>) -> bool {
    forall|k: int|
        0 <= k < rs.len() ==> {
            &&& (#[trigger] rs[k]).original@.len() == rs[k].replacement@.len()
            &&& rs[k].replacement@.len() > 0
            &&& rs[k].addr + rs[k].replacement@.len() <= usize::MAX
        }
}

/// Two address ranges share no byte.
pub open spec fn ranges_disjoint(a1: int, l1: int, a2: int, l2: int) -> bool {
    a1 + l1 <= a2 || a2 + l2 <= a1
}

pub open spec fn regions_disjoint(rs: Seq<PatchRegion>) -> bool {
    forall|k1: int, k2: int|
        0 <= k1 < rs.len() && 0 <= k2 < rs.len() && k1 != k2 ==> ranges_disjoint(
            (#[trigger] rs[k1]).addr as int,
            region_len(rs[k1]),
            (#[trigger] rs[k2]).addr as int,
            region_len(rs[k2]),
        )
}

/// Every region lies inside a span of `size` bytes at `base`.
pub open spec fn regions_within(rs: Seq<PatchRegion>, base: int, size: int) -> bool {
    forall|k: int|
        0 <= k < rs.len() ==> base <= (#[trigger] rs[k]).addr && rs[k].addr - base + region_len(
            rs[k],
        ) <= size
}

/// Offset `i` (relative to `base`) lies inside region `k`.
pub open spec fn covered_by(rs: Seq<PatchRegion>, base: int, i: int, k: int) -> bool {
    0 <= k < rs.len() && rs[k].addr - base <= i < rs[k].addr - base + region_len(rs[k])
}

/// Offset `i` lies inside some region.
pub open spec fn covered(rs: Seq<PatchRegion>, base: int, i: int) -> bool {
    exists|k: int| covered_by(rs, base, i, k)
}

/// The contents of a memory span at `base` after writing every region of
/// `rs` in order, each with its replacement (`enable`) or its original
/// snapshot (`!enable`).
pub open spec fn write_all(mem: Seq<u8>, base: int, rs: Seq<PatchRegion>, enable: bool) -> Seq<u8>
    decreases rs.len(),
{
    if rs.len() == 0 {
        mem
    } else {
        spec_write_bytes(
            write_all(mem, base, rs.drop_last(), enable),
            rs.last().addr - base,
            region_data(rs.last(), enable),
        )
    }
}

pub proof fn lemma_write_all_len(mem: Seq<u8>, base: int, rs: Seq<PatchRegion>, enable: bool)
    ensures
        write_all(mem, base, rs, enable).len() == mem.len(),
    decreases rs.len(),
{
    if rs.len() > 0 {
        lemma_write_all_len(mem, base, rs.drop_last(), enable);
    }
}

/// A byte outside every region is left unchanged by `write_all`.
pub proof fn lemma_write_all_untouched(
    mem: Seq<u8>,
    base: int,
    rs: Seq<PatchRegion>,
    enable: bool,
    i: int,
)
    requires
        regions_wf(rs),
        0 <= i < mem.len(),
        !covered(rs, base, i),
    ensures
        write_all(mem, base, rs, enable)[i] == mem[i],
    decreases rs.len(),
{
    if rs.len() > 0 {
        let drop = rs.drop_last();
        assert(forall|j: int| 0 <= j < drop.len() ==> drop[j] == rs[j]);
        assert(!covered(drop, base, i)) by {
            if covered(drop, base, i) {
                let k = choose|k: int| covered_by(drop, base, i, k);
                assert(covered_by(rs, base, i, k));
            }
        }
        lemma_write_all_untouched(mem, base, drop, enable, i);
        lemma_write_all_len(mem, base, drop, enable);
        assert(!covered_by(rs, base, i, rs.len() - 1));
        assert(region_data(rs.last(), enable).len() == region_len(rs.last()));
    }
}

/// A byte inside region `k` holds that region's data after `write_all`,
/// provided the regions are disjoint and lie inside the span.
pub proof fn lemma_write_all_covered(
    mem: Seq<u8>,
    base: int,
    rs: Seq<PatchRegion>,
    enable: bool,
    k: int,
    i: int,
)
    requires
        regions_wf(rs),
        regions_disjoint(rs),
        regions_within(rs, base, mem.len() as int),
        covered_by(rs, base, i, k),
    ensures
        write_all(mem, base, rs, enable)[i] == region_data(rs[k], enable)[i - (rs[k].addr
            - base)],
    decreases rs.len(),
{
    let drop = rs.drop_last();
    let last = rs.len() - 1;
    lemma_write_all_len(mem, base, drop, enable);
    if k == last {
        assert(region_data(rs[k], enable).len() == region_len(rs[k]));
    } else {
        assert(regions_wf(drop) && regions_disjoint(drop) && regions_within(
            drop,
            base,
            mem.len() as int,
        )) by {
            assert(forall|j: int| 0 <= j < drop.len() ==> drop[j] == rs[j]);
        }
        assert(covered_by(drop, base, i, k));
        lemma_write_all_covered(mem, base, drop, enable, k, i);
        assert(ranges_disjoint(
            rs[k].addr as int,
            region_len(rs[k]),
            rs[last].addr as int,
            region_len(rs[last]),
        ));
        assert(!(rs[last].addr - base <= i < rs[last].addr - base + region_len(rs[last])));
    }
}

/// Applying the same toggle twice leaves the same bytes as applying it once.
pub proof fn lemma_patch_idempotent(mem: Seq<u8>, base: int, rs: Seq<PatchRegion>, enable: bool)
    requires
        regions_wf(rs),
        regions_disjoint(rs),
        regions_within(rs, base, mem.len() as int),
    ensures
        write_all(write_all(mem, base, rs, enable), base, rs, enable) == write_all(
            mem,
            base,
            rs,
            enable,
        ),
{
    let m1 = write_all(mem, base, rs, enable);
    let m2 = write_all(m1, base, rs, enable);
    lemma_write_all_len(mem, base, rs, enable);
    lemma_write_all_len(m1, base, rs, enable);
    assert forall|i: int| 0 <= i < m1.len() implies m2[i] == m1[i] by {
        if covered(rs, base, i) {
            let k = choose|k: int| covered_by(rs, base, i, k);
            lemma_write_all_covered(mem, base, rs, enable, k, i);
            lemma_write_all_covered(m1, base, rs, enable, k, i);
        } else {
            lemma_write_all_untouched(m1, base, rs, enable, i);
        }
    }
    assert(m2 =~= m1);
}

/// Round trip: if every region's `original` snapshot holds the bytes the
/// span carries at that region, then applying all replacements and then
/// restoring all originals reproduces the span exactly.
pub proof fn lemma_patch_round_trip(mem: Seq<u8>, base: int, rs: Seq<PatchRegion>)
    requires
        regions_wf(rs),
        regions_disjoint(rs),
        regions_within(rs, base, mem.len() as int),
        forall|k: int|
            0 <= k < rs.len() ==> (#[trigger] rs[k]).original@ == mem.subrange(
                rs[k].addr - base,
                rs[k].addr - base + region_len(rs[k]),
            ),
    ensures
        write_all(write_all(mem, base, rs, true), base, rs, false) == mem,
{
    let m1 = write_all(mem, base, rs, true);
    let m2 = write_all(m1, base, rs, false);
    lemma_write_all_len(mem, base, rs, true);
    lemma_write_all_len(m1, base, rs, false);
    assert forall|i: int| 0 <= i < mem.len() implies m2[i] == mem[i] by {
        if covered(rs, base, i) {
            let k = choose|k: int| covered_by(rs, base, i, k);
            lemma_write_all_covered(m1, base, rs, false, k, i);
            let off = rs[k].addr - base;
            assert(rs[k].original@[i - off] == mem.subrange(off, off + region_len(rs[k]))[i
                - off]);
        } else {
            lemma_write_all_untouched(mem, base, rs, true, i);
            lemma_write_all_untouched(m1, base, rs, false, i);
        }
    }
    assert(m2 =~= mem);
}

/// A reversible multi-region byte patch.
///
/// Construction captures the original bytes of every region and leaves the
/// set not applied; [`PatchSet::toggle`] writes or restores all regions as
/// one atomic unit. Partial application is never observable: a toggle either
/// rewrites every region or, when some region is not writable, leaves
/// memory exactly as it found it.
#[derive(Debug)]
pub struct PatchSet {
    regions: Vec<PatchRegion>,
    applied: bool,
}

/// Whether every region of `rs` is writable in `mem`.
pub open spec fn regions_writable(rs: Seq<PatchRegion>, mem: &MemoryImage) -> bool {
    forall|k: int|
        0 <= k < rs.len() ==> mem.range_writable(
            (#[trigger] rs[k]).addr as int,
            region_len(rs[k]),
        )
}

/// Every requested region names a nonempty range lying inside `mem`.
pub open spec fn spec_regions_ok(mem: &MemoryImage, specs: Seq<(usize, Vec<u8>)>) -> bool {
    forall|k: int|
        0 <= k < specs.len() ==> {
            &&& (#[trigger] specs[k]).1@.len() > 0
            &&& mem.contains_range(specs[k].0 as int, specs[k].1@.len() as int)
        }
}

/// No two requested regions share a byte.
pub open spec fn spec_regions_disjoint(specs: Seq<(usize, Vec<u8>)>) -> bool {
    forall|k1: int, k2: int|
        0 <= k1 < specs.len() && 0 <= k2 < specs.len() && k1 != k2 ==> ranges_disjoint(
            (#[trigger] specs[k1]).0 as int,
            specs[k1].1@.len() as int,
            (#[trigger] specs[k2]).0 as int,
            specs[k2].1@.len() as int,
        )
}

fn copy_bytes(src: &Vec<u8>) -> (r: Vec<u8>)
    ensures
        r@ == src@,
{
    let mut r: Vec<u8> = Vec::new();
    let mut i: usize = 0;
    while i < src.len()
        invariant
            i <= src.len(),
            r@ =~= src@.subrange(0, i as int),
        decreases src.len() - i,
    {
        r.push(src[i]);
        i += 1;
    }
    assert(r@ =~= src@);
    r
}

impl PatchSet {
    pub closed spec fn regions(&self) -> Seq<PatchRegion> {
        self.regions@
    }

    pub closed spec fn applied(&self) -> bool {
        self.applied
    }

    pub open spec fn wf(&self) -> bool {
        regions_wf(self.regions()) && regions_disjoint(self.regions())
    }

    /// Every region lies inside `mem`.
    pub open spec fn in_image(&self, mem: &MemoryImage) -> bool {
        regions_within(self.regions(), mem.base_addr(), mem.size())
    }

    /// Whether the patch is currently applied; a pure read.
    pub fn is_enabled(&self) -> (r: bool)
        ensures
            r == self.applied(),
    {
        self.applied
    }

    pub fn region_count(&self) -> (r: usize)
        ensures
            r == self.regions().len(),
    {
        self.regions.len()
    }

    /// The address and length of region `k`.
    pub fn region_range(&self, k: usize) -> (r: (usize, usize))
        requires
            k < self.regions().len(),
        ensures
            r.0 == self.regions()[k as int].addr,
            r.1 == region_len(self.regions()[k as int]),
    {
        (self.regions[k].addr, self.regions[k].replacement.len())
    }

    /// Build a patch set over `mem` from `(address, replacement bytes)`
    /// pairs, capturing the original bytes of every region immediately.
    /// Memory is not modified and the set starts not applied.
    ///
    /// Fails with `InvalidAddress` when some region is empty or lies outside
    /// the image, and with `DuplicateAddress` when two regions overlap.
    pub fn new(mem: &MemoryImage, specs: &Vec<(usize, Vec<u8>)>) -> (r: Result<
        PatchSet,
        EngineError,
    >)
        requires
            mem.wf(),
        ensures
            r is Ok <==> (spec_regions_ok(mem, specs@) && spec_regions_disjoint(specs@)),
            (r == Err::<PatchSet, EngineError>(EngineError::InvalidAddress)) <==> !spec_regions_ok(
                mem,
                specs@,
            ),
            (r == Err::<PatchSet, EngineError>(EngineError::DuplicateAddress)) <==> (
            spec_regions_ok(mem, specs@) && !spec_regions_disjoint(specs@)),
            r matches Ok(p) ==> {
                &&& p.wf()
                &&& !p.applied()
                &&& p.in_image(mem)
                &&& p.regions().len() == specs@.len()
                &&& forall|k: int|
                    0 <= k < specs@.len() ==> {
                        &&& (#[trigger] p.regions()[k]).addr == specs@[k].0
                        &&& p.regions()[k].replacement@ == specs@[k].1@
                        &&& p.regions()[k].original@ == mem.contents().subrange(
                            specs@[k].0 - mem.base_addr(),
                            specs@[k].0 - mem.base_addr() + specs@[k].1@.len(),
                        )
                    }
            },
    {
        let n = specs.len();
        let mut k: usize = 0;
        while k < n
            invariant
                mem.wf(),
                n == specs@.len(),
                k <= n,
                forall|j: int|
                    0 <= j < k ==> {
                        &&& (#[trigger] specs@[j]).1@.len() > 0
                        &&& mem.contains_range(specs@[j].0 as int, specs@[j].1@.len() as int)
                    },
            decreases n - k,
        {
            let len = specs[k].1.len();
            if len == 0 || !mem.contains(specs[k].0, len) {
                return Err(EngineError::InvalidAddress);
            }
            k += 1;
        }
        let mut k1: usize = 0;
        while k1 < n
            invariant
                mem.wf(),
                n == specs@.len(),
                k1 <= n,
                spec_regions_ok(mem, specs@),
                forall|a: int, b: int|
                    0 <= b < a < k1 ==> ranges_disjoint(
                        (#[trigger] specs@[a]).0 as int,
                        specs@[a].1@.len() as int,
                        (#[trigger] specs@[b]).0 as int,
                        specs@[b].1@.len() as int,
                    ),
            decreases n - k1,
        {
            let a1 = specs[k1].0;
            let l1 = specs[k1].1.len();
            let mut k2: usize = 0;
            while k2 < k1
                invariant
                    mem.wf(),
                    n == specs@.len(),
                    k2 <= k1 < n,
                    spec_regions_ok(mem, specs@),
                    a1 == specs@[k1 as int].0,
                    l1 == specs@[k1 as int].1@.len(),
                    forall|b: int|
                        0 <= b < k2 ==> ranges_disjoint(
                            specs@[k1 as int].0 as int,
                            specs@[k1 as int].1@.len() as int,
                            (#[trigger] specs@[b]).0 as int,
                            specs@[b].1@.len() as int,
                        ),
                decreases k1 - k2,
            {
                let a2 = specs[k2].0;
                let l2 = specs[k2].1.len();
                if !(a1 + l1 <= a2 || a2 + l2 <= a1) {
                    return Err(EngineError::DuplicateAddress);
                }
                k2 += 1;
            }
            k1 += 1;
        }
        assert forall|x: int, y: int|
            0 <= x < specs@.len() && 0 <= y < specs@.len() && x != y implies ranges_disjoint(
            (#[trigger] specs@[x]).0 as int,
            specs@[x].1@.len() as int,
            (#[trigger] specs@[y]).0 as int,
            specs@[y].1@.len() as int,
        ) by {
            if x < y {
                assert(ranges_disjoint(
                    specs@[y].0 as int,
                    specs@[y].1@.len() as int,
                    specs@[x].0 as int,
                    specs@[x].1@.len() as int,
                ));
            }
        }
        let mut regions: Vec<PatchRegion> = Vec::new();
        let mut k: usize = 0;
        while k < n
            invariant
                mem.wf(),
                n == specs@.len(),
                k <= n,
                spec_regions_ok(mem, specs@),
                regions@.len() == k,
                forall|j: int|
                    0 <= j < k ==> {
                        &&& (#[trigger] regions@[j]).addr == specs@[j].0
                        &&& regions@[j].replacement@ == specs@[j].1@
                        &&& regions@[j].original@ == mem.contents().subrange(
                            specs@[j].0 - mem.base_addr(),
                            specs@[j].0 - mem.base_addr() + specs@[j].1@.len(),
                        )
                    },
            decreases n - k,
        {
            let addr = specs[k].0;
            let len = specs[k].1.len();
            let original = mem.read_bytes(addr, len);
            let replacement = copy_bytes(&specs[k].1);
            regions.push(PatchRegion { addr, original, replacement });
            k += 1;
        }
        let p = PatchSet { regions, applied: false };
        assert(p.wf() && p.in_image(mem)) by {
            assert(forall|j: int|
                0 <= j < p.regions().len() ==> (#[trigger] p.regions()[j]).original@.len()
                    == p.regions()[j].replacement@.len());
        }
        Ok(p)
    }

    /// Apply (`enable`) or revert (`!enable`) every region as one unit.
    ///
    /// A toggle to the current state is a no-op success. Otherwise all
    /// regions are rewritten; when some region is not writable, memory and
    /// the applied flag are left exactly as they were and the call fails
    /// with `PartialPatchFailure`, so the externally observed state never
    /// straddles applied and not applied.
    pub fn toggle(&mut self, mem: &mut MemoryImage, enable: bool) -> (r: Result<(), EngineError>)
        requires
            old(self).wf(),
            old(mem).wf(),
            old(self).in_image(old(mem)),
        ensures
            final(self).regions() == old(self).regions(),
            final(self).wf(),
            final(mem).wf(),
            final(mem).base_addr() == old(mem).base_addr(),
            final(mem).wmask() == old(mem).wmask(),
            final(mem).size() == old(mem).size(),
            final(self).in_image(final(mem)),
            r is Ok <==> (enable == old(self).applied() || regions_writable(
                old(self).regions(),
                old(mem),
            )),
            r is Err ==> r == Err::<(), EngineError>(EngineError::PartialPatchFailure),
            enable == old(self).applied() ==> final(mem).contents() == old(mem).contents()
                && final(self).applied() == old(self).applied(),
            r is Err ==> final(mem).contents() == old(mem).contents() && final(self).applied()
                == old(self).applied(),
            enable != old(self).applied() && r is Ok ==> final(self).applied() == enable
                && final(mem).contents() == write_all(
                old(mem).contents(),
                old(mem).base_addr(),
                old(self).regions(),
                enable,
            ),
    {
        if enable == self.applied {
            return Ok(());
        }
        let n = self.regions.len();
        let mut k: usize = 0;
        while k < n
            invariant
                *self == *old(self),
                *mem == *old(mem),
                enable != old(self).applied(),
                self.wf(),
                mem.wf(),
                self.in_image(mem),
                n == self.regions().len(),
                k <= n,
                forall|j: int|
                    0 <= j < k ==> mem.range_writable(
                        (#[trigger] self.regions()[j]).addr as int,
                        region_len(self.regions()[j]),
                    ),
            decreases n - k,
        {
            let len = self.regions[k].replacement.len();
            if !mem.is_range_writable(self.regions[k].addr, len) {
                proof {
                    assert(mem.contains_range(
                        self.regions()[k as int].addr as int,
                        region_len(self.regions()[k as int]),
                    ));
                    assert(!regions_writable(old(self).regions(), old(mem)));
                }
                return Err(EngineError::PartialPatchFailure);
            }
            k += 1;
        }
        let ghost orig = mem.contents();
        let ghost base = mem.base_addr();
        let ghost rs = self.regions@;
        let mut k: usize = 0;
        while k < n
            invariant
                self.wf(),
                mem.wf(),
                self.in_image(mem),
                self.regions@ == rs,
                self.applied == old(self).applied(),
                n == rs.len(),
                k <= n,
                mem.base_addr() == base,
                mem.wmask() == old(mem).wmask(),
                mem.size() == orig.len(),
                regions_writable(rs, mem),
                mem.contents() == write_all(orig, base, rs.take(k as int), enable),
            decreases n - k,
        {
            let addr = self.regions[k].addr;
            let data = if enable {
                &self.regions[k].replacement
            } else {
                &self.regions[k].original
            };
            proof {
                assert(data@.len() == region_len(rs[k as int]));
                assert(mem.range_writable(addr as int, region_len(rs[k as int])));
            }
            mem.write_bytes(addr, data);
            proof {
                let prefix = rs.take(k + 1);
                assert(prefix.drop_last() =~= rs.take(k as int));
                assert(prefix.last() == rs[k as int]);
                assert(mem.contents() == write_all(orig, base, prefix, enable));
            }
            k += 1;
        }
        assert(rs.take(n as int) =~= rs);
        self.applied = enable;
        Ok(())
    }
}

} // verus!
