use vstd::prelude::*;

use crate::errors::EngineError;
use crate::intercept::{InterceptHandle, JUMP_LEN};
use crate::mem::MemoryImage;
use crate::patch::{region_len, ranges_disjoint, PatchSet};

verus! {

/// What the registry can own under a name: a trampoline hook or a patch
/// set.
pub enum RegistryItem {
    Intercept(InterceptHandle),
    Patch(PatchSet),
}

/// A named registration.
pub struct RegistryEntry {
    pub name: String,
    pub item: RegistryItem,
}

pub open spec fn item_wf(item: RegistryItem) -> bool {
    match item {
        RegistryItem::Intercept(h) => h.wf(),
        RegistryItem::Patch(p) => p.wf(),
    }
}

/// The byte ranges an item occupies, as `(address, length)` pairs.
pub open spec fn item_ranges(item: RegistryItem) -> Seq<(int, int)> {
    match item {
        RegistryItem::Intercept(h) => seq![(h.target_addr(), JUMP_LEN as int)],
        RegistryItem::Patch(p) => Seq::new(
            p.regions().len(),
            |k: int| (p.regions()[k].addr as int, region_len(p.regions()[k])),
        ),
    }
}

/// Two items overlap when any of their ranges share a byte.
pub open spec fn items_overlap(a: RegistryItem, b: RegistryItem) -> bool {
    exists|x: int, y: int|
        {
            &&& 0 <= x < item_ranges(a).len()
            &&& 0 <= y < item_ranges(b).len()
            &&& !ranges_disjoint(
                (#[trigger] item_ranges(a)[x]).0,
                item_ranges(a)[x].1,
                (#[trigger] item_ranges(b)[y]).0,
                item_ranges(b)[y].1,
            )
        }
}

/// Some range of `item` shares a byte with the span `[addr, addr + len)`.
pub open spec fn span_overlaps_item(item: RegistryItem, addr: int, len: int) -> bool {
    exists|x: int|
        0 <= x < item_ranges(item).len() && !ranges_disjoint(
            (#[trigger] item_ranges(item)[x]).0,
            item_ranges(item)[x].1,
            addr,
            len,
        )
}

/// Overlap with a hook's single range is overlap with its span.
pub proof fn lemma_overlap_with_intercept(a: RegistryItem, h: InterceptHandle)
    ensures
        items_overlap(a, RegistryItem::Intercept(h)) == span_overlaps_item(
            a,
            h.target_addr(),
            JUMP_LEN as int,
        ),
{
    let b = RegistryItem::Intercept(h);
    assert(item_ranges(b) =~= seq![(h.target_addr(), JUMP_LEN as int)]);
    if items_overlap(a, b) {
        let (x, y) = choose|x: int, y: int|
            {
                &&& 0 <= x < item_ranges(a).len()
                &&& 0 <= y < item_ranges(b).len()
                &&& !ranges_disjoint(
                    (#[trigger] item_ranges(a)[x]).0,
                    item_ranges(a)[x].1,
                    (#[trigger] item_ranges(b)[y]).0,
                    item_ranges(b)[y].1,
                )
            };
        assert(y == 0);
        assert(span_overlaps_item(a, h.target_addr(), JUMP_LEN as int)) by {
            assert(!ranges_disjoint(
                item_ranges(a)[x].0,
                item_ranges(a)[x].1,
                h.target_addr(),
                JUMP_LEN as int,
            ));
        }
    }
    if span_overlaps_item(a, h.target_addr(), JUMP_LEN as int) {
        let x = choose|x: int|
            0 <= x < item_ranges(a).len() && !ranges_disjoint(
                (#[trigger] item_ranges(a)[x]).0,
                item_ranges(a)[x].1,
                h.target_addr(),
                JUMP_LEN as int,
            );
        assert(!ranges_disjoint(
            item_ranges(a)[x].0,
            item_ranges(a)[x].1,
            item_ranges(b)[0].0,
            item_ranges(b)[0].1,
        ));
        assert(items_overlap(a, b));
    }
}

/// Overlap with a patch is overlap with some region's span.
pub proof fn lemma_overlap_with_patch(a: RegistryItem, p: PatchSet)
    ensures
        items_overlap(a, RegistryItem::Patch(p)) == (exists|y: int|
            0 <= y < p.regions().len() && span_overlaps_item(
                a,
                (#[trigger] p.regions()[y]).addr as int,
                region_len(p.regions()[y]),
            )),
{
    let b = RegistryItem::Patch(p);
    if items_overlap(a, b) {
        let (x, y) = choose|x: int, y: int|
            {
                &&& 0 <= x < item_ranges(a).len()
                &&& 0 <= y < item_ranges(b).len()
                &&& !ranges_disjoint(
                    (#[trigger] item_ranges(a)[x]).0,
                    item_ranges(a)[x].1,
                    (#[trigger] item_ranges(b)[y]).0,
                    item_ranges(b)[y].1,
                )
            };
        assert(item_ranges(b)[y].0 == p.regions()[y].addr as int);
        assert(span_overlaps_item(a, p.regions()[y].addr as int, region_len(p.regions()[y])))
            by {
            assert(!ranges_disjoint(
                item_ranges(a)[x].0,
                item_ranges(a)[x].1,
                p.regions()[y].addr as int,
                region_len(p.regions()[y]),
            ));
        }
    }
    if exists|y: int|
        0 <= y < p.regions().len() && span_overlaps_item(
            a,
            (#[trigger] p.regions()[y]).addr as int,
            region_len(p.regions()[y]),
        ) {
        let y = choose|y: int|
            0 <= y < p.regions().len() && span_overlaps_item(
                a,
                (#[trigger] p.regions()[y]).addr as int,
                region_len(p.regions()[y]),
            );
        let x = choose|x: int|
            0 <= x < item_ranges(a).len() && !ranges_disjoint(
                (#[trigger] item_ranges(a)[x]).0,
                item_ranges(a)[x].1,
                p.regions()[y].addr as int,
                region_len(p.regions()[y]),
            );
        assert(!ranges_disjoint(
            item_ranges(a)[x].0,
            item_ranges(a)[x].1,
            item_ranges(b)[y].0,
            item_ranges(b)[y].1,
        ));
        assert(items_overlap(a, b));
    }
}

pub proof fn lemma_items_overlap_sym(a: RegistryItem, b: RegistryItem)
    ensures
        items_overlap(a, b) == items_overlap(b, a),
{
    if items_overlap(a, b) {
        let (x, y) = choose|x: int, y: int|
            {
                &&& 0 <= x < item_ranges(a).len()
                &&& 0 <= y < item_ranges(b).len()
                &&& !ranges_disjoint(
                    (#[trigger] item_ranges(a)[x]).0,
                    item_ranges(a)[x].1,
                    (#[trigger] item_ranges(b)[y]).0,
                    item_ranges(b)[y].1,
                )
            };
        assert(!ranges_disjoint(
            item_ranges(b)[y].0,
            item_ranges(b)[y].1,
            item_ranges(a)[x].0,
            item_ranges(a)[x].1,
        ));
    }
    if items_overlap(b, a) {
        let (x, y) = choose|x: int, y: int|
            {
                &&& 0 <= x < item_ranges(b).len()
                &&& 0 <= y < item_ranges(a).len()
                &&& !ranges_disjoint(
                    (#[trigger] item_ranges(b)[x]).0,
                    item_ranges(b)[x].1,
                    (#[trigger] item_ranges(a)[y]).0,
                    item_ranges(a)[y].1,
                )
            };
        assert(!ranges_disjoint(
            item_ranges(a)[y].0,
            item_ranges(a)[y].1,
            item_ranges(b)[x].0,
            item_ranges(b)[x].1,
        ));
    }
}

/// Overlap depends only on the items' ranges.
pub proof fn lemma_items_overlap_congruence(a1: RegistryItem, a2: RegistryItem, b: RegistryItem)
    requires
        item_ranges(a1) == item_ranges(a2),
    ensures
        items_overlap(a1, b) == items_overlap(a2, b),
{
    if items_overlap(a1, b) {
        let (x, y) = choose|x: int, y: int|
            {
                &&& 0 <= x < item_ranges(a1).len()
                &&& 0 <= y < item_ranges(b).len()
                &&& !ranges_disjoint(
                    (#[trigger] item_ranges(a1)[x]).0,
                    item_ranges(a1)[x].1,
                    (#[trigger] item_ranges(b)[y]).0,
                    item_ranges(b)[y].1,
                )
            };
        assert(!ranges_disjoint(
            item_ranges(a2)[x].0,
            item_ranges(a2)[x].1,
            item_ranges(b)[y].0,
            item_ranges(b)[y].1,
        ));
    }
    if items_overlap(a2, b) {
        let (x, y) = choose|x: int, y: int|
            {
                &&& 0 <= x < item_ranges(a2).len()
                &&& 0 <= y < item_ranges(b).len()
                &&& !ranges_disjoint(
                    (#[trigger] item_ranges(a2)[x]).0,
                    item_ranges(a2)[x].1,
                    (#[trigger] item_ranges(b)[y]).0,
                    item_ranges(b)[y].1,
                )
            };
        assert(!ranges_disjoint(
            item_ranges(a1)[x].0,
            item_ranges(a1)[x].1,
            item_ranges(b)[y].0,
            item_ranges(b)[y].1,
        ));
    }
}

/// Replacing one entry's item with a well-formed item occupying the same
/// ranges, under the same name, keeps the entry list well formed.
pub proof fn lemma_entries_wf_update(s1: Seq<RegistryEntry>, s2: Seq<RegistryEntry>, k: int)
    requires
        entries_wf(s1),
        0 <= k < s1.len(),
        s2.len() == s1.len(),
        forall|j: int| 0 <= j < s1.len() && j != k ==> s2[j] == s1[j],
        s2[k].name@ == s1[k].name@,
        item_wf(s2[k].item),
        item_ranges(s2[k].item) == item_ranges(s1[k].item),
    ensures
        entries_wf(s2),
{
    assert forall|k1: int, k2: int|
        0 <= k1 < s2.len() && 0 <= k2 < s2.len() && k1 != k2 implies (#[trigger] s2[k1]).name@
        != (#[trigger] s2[k2]).name@ && !items_overlap(s2[k1].item, s2[k2].item) by {
        assert(s1[k1].name@ != s1[k2].name@ && !items_overlap(s1[k1].item, s1[k2].item));
        if k1 == k {
            lemma_items_overlap_congruence(s1[k].item, s2[k].item, s2[k2].item);
        } else if k2 == k {
            lemma_items_overlap_sym(s2[k1].item, s1[k].item);
            lemma_items_overlap_congruence(s1[k].item, s2[k].item, s2[k1].item);
            lemma_items_overlap_sym(s2[k].item, s2[k1].item);
        }
    }
}

/// Well-formed entry list: every item well formed, names unique, no two
/// items' ranges overlapping.
pub open spec fn entries_wf(s: Seq<RegistryEntry>) -> bool {
    &&& forall|k: int| 0 <= k < s.len() ==> item_wf((#[trigger] s[k]).item)
    &&& forall|k1: int, k2: int|
        0 <= k1 < s.len() && 0 <= k2 < s.len() && k1 != k2 ==> (#[trigger] s[k1]).name@ != (
        #[trigger] s[k2]).name@ && !items_overlap(s[k1].item, s[k2].item)
}

/// Owner of every named hook and patch.
///
/// The registry enforces single-owner semantics per address: no two
/// registered items may cover a common byte, and no name is handed out
/// twice. There is no removal; registrations live until the process exits.
pub struct HookRegistry {
    entries: Vec<RegistryEntry>,
}

impl HookRegistry {
    pub closed spec fn entries(&self) -> Seq<RegistryEntry> {
        self.entries@
    }

    pub open spec fn wf(&self) -> bool {
        entries_wf(self.entries())
    }

    /// Some entry already answers to `n`.
    pub open spec fn has_name(&self, n: Seq<char>) -> bool {
        exists|k: int| 0 <= k < self.entries().len() && (#[trigger] self.entries()[k]).name@ == n
    }

    /// Some entry's ranges overlap `item`'s.
    pub open spec fn conflicts_with(&self, item: RegistryItem) -> bool {
        exists|k: int|
            0 <= k < self.entries().len() && items_overlap(
                (#[trigger] self.entries()[k]).item,
                item,
            )
    }

    /// Some entry's ranges overlap the span `[addr, addr + len)`.
    pub open spec fn conflicts_with_span(&self, addr: int, len: int) -> bool {
        exists|k: int|
            0 <= k < self.entries().len() && span_overlaps_item(
                (#[trigger] self.entries()[k]).item,
                addr,
                len,
            )
    }

    /// Conflict with a hook is conflict with its span.
    pub proof fn lemma_conflicts_intercept(&self, h: InterceptHandle)
        ensures
            self.conflicts_with(RegistryItem::Intercept(h)) == self.conflicts_with_span(
                h.target_addr(),
                JUMP_LEN as int,
            ),
    {
        if self.conflicts_with(RegistryItem::Intercept(h)) {
            let k = choose|k: int|
                0 <= k < self.entries().len() && items_overlap(
                    (#[trigger] self.entries()[k]).item,
                    RegistryItem::Intercept(h),
                );
            lemma_overlap_with_intercept(self.entries()[k].item, h);
            assert(span_overlaps_item(
                self.entries()[k].item,
                h.target_addr(),
                JUMP_LEN as int,
            ));
        }
        if self.conflicts_with_span(h.target_addr(), JUMP_LEN as int) {
            let k = choose|k: int|
                0 <= k < self.entries().len() && span_overlaps_item(
                    (#[trigger] self.entries()[k]).item,
                    h.target_addr(),
                    JUMP_LEN as int,
                );
            lemma_overlap_with_intercept(self.entries()[k].item, h);
            assert(items_overlap(self.entries()[k].item, RegistryItem::Intercept(h)));
        }
    }

    /// Conflict with a patch is conflict with some region's span.
    pub proof fn lemma_conflicts_patch(&self, p: PatchSet)
        ensures
            self.conflicts_with(RegistryItem::Patch(p)) == (exists|y: int|
                0 <= y < p.regions().len() && self.conflicts_with_span(
                    (#[trigger] p.regions()[y]).addr as int,
                    region_len(p.regions()[y]),
                )),
    {
        if self.conflicts_with(RegistryItem::Patch(p)) {
            let k = choose|k: int|
                0 <= k < self.entries().len() && items_overlap(
                    (#[trigger] self.entries()[k]).item,
                    RegistryItem::Patch(p),
                );
            lemma_overlap_with_patch(self.entries()[k].item, p);
            let y = choose|y: int|
                0 <= y < p.regions().len() && span_overlaps_item(
                    self.entries()[k].item,
                    (#[trigger] p.regions()[y]).addr as int,
                    region_len(p.regions()[y]),
                );
            assert(self.conflicts_with_span(
                p.regions()[y].addr as int,
                region_len(p.regions()[y]),
            ));
        }
        if exists|y: int|
            0 <= y < p.regions().len() && self.conflicts_with_span(
                (#[trigger] p.regions()[y]).addr as int,
                region_len(p.regions()[y]),
            ) {
            let y = choose|y: int|
                0 <= y < p.regions().len() && self.conflicts_with_span(
                    (#[trigger] p.regions()[y]).addr as int,
                    region_len(p.regions()[y]),
                );
            let k = choose|k: int|
                0 <= k < self.entries().len() && span_overlaps_item(
                    (#[trigger] self.entries()[k]).item,
                    p.regions()[y].addr as int,
                    region_len(p.regions()[y]),
                );
            lemma_overlap_with_patch(self.entries()[k].item, p);
            assert(items_overlap(self.entries()[k].item, RegistryItem::Patch(p)));
        }
    }

    pub fn new() -> (r: HookRegistry)
        ensures
            r.wf(),
            r.entries().len() == 0,
    {
        HookRegistry { entries: Vec::new() }
    }

    /// Whether some entry already answers to `name`.
    pub fn name_taken(&self, name: &String) -> (r: bool)
        ensures
            r == self.has_name(name@),
    {
        self.get(name).is_some()
    }

    /// Whether some entry's ranges overlap the span `[addr, addr + len)`.
    pub fn conflicts_span(&self, addr: usize, len: usize) -> (r: bool)
        requires
            self.wf(),
            addr + len <= usize::MAX,
        ensures
            r == self.conflicts_with_span(addr as int, len as int),
    {
        let n = self.entries.len();
        let mut k: usize = 0;
        while k < n
            invariant
                self.wf(),
                addr + len <= usize::MAX,
                n == self.entries().len(),
                k <= n,
                forall|j: int|
                    0 <= j < k ==> !span_overlaps_item(
                        (#[trigger] self.entries()[j]).item,
                        addr as int,
                        len as int,
                    ),
            decreases n - k,
        {
            let ranges = item_ranges_vec(&self.entries[k].item);
            let m = ranges.len();
            let mut x: usize = 0;
            while x < m
                invariant
                    self.wf(),
                    addr + len <= usize::MAX,
                    k < n == self.entries().len(),
                    m == ranges@.len(),
                    ranges@.len() == item_ranges(self.entries()[k as int].item).len(),
                    forall|i: int|
                        0 <= i < ranges@.len() ==> (#[trigger] ranges@[i]).0 as int
                            == item_ranges(self.entries()[k as int].item)[i].0 && ranges@[i].1
                            as int == item_ranges(self.entries()[k as int].item)[i].1
                            && ranges@[i].0 + ranges@[i].1 <= usize::MAX,
                    x <= m,
                    forall|i: int|
                        0 <= i < x ==> ranges_disjoint(
                            (#[trigger] item_ranges(self.entries()[k as int].item)[i]).0,
                            item_ranges(self.entries()[k as int].item)[i].1,
                            addr as int,
                            len as int,
                        ),
                decreases m - x,
            {
                let (a1, l1) = ranges[x];
                if !(a1 + l1 <= addr || addr + len <= a1) {
                    return true;
                }
                x += 1;
            }
            k += 1;
        }
        false
    }

    pub fn len(&self) -> (r: usize)
        ensures
            r == self.entries().len(),
    {
        self.entries.len()
    }

    /// Look an item up by name.
    pub fn get(&self, name: &String) -> (r: Option<&RegistryItem>)
        ensures
            r is Some <==> self.has_name(name@),
            r matches Some(item) ==> exists|k: int|
                0 <= k < self.entries().len() && (#[trigger] self.entries()[k]).name@ == name@
                    && *item == self.entries()[k].item,
    {
        let n = self.entries.len();
        let mut k: usize = 0;
        while k < n
            invariant
                n == self.entries().len(),
                k <= n,
                forall|j: int| 0 <= j < k ==> (#[trigger] self.entries()[j]).name@ != name@,
            decreases n - k,
        {
            if self.entries[k].name == *name {
                return Some(&self.entries[k].item);
            }
            k += 1;
        }
        None
    }

    /// A reference to the item at index `k`.
    pub fn item_at(&self, k: usize) -> (r: &RegistryItem)
        requires
            k < self.entries().len(),
        ensures
            *r == self.entries()[k as int].item,
    {
        &self.entries[k].item
    }

    /// Claim `name` and the item's byte ranges.
    ///
    /// Fails with `DuplicateName` when the name is taken, and when any byte
    /// range collides with an existing registration, with
    /// `AddressAlreadyHooked` (for a hook) or `DuplicateAddress` (for a
    /// patch). Nothing is modified on failure; no memory is touched either
    /// way.
    pub fn register(&mut self, name: String, item: RegistryItem) -> (r: Result<(), EngineError>)
        requires
            old(self).wf(),
            item_wf(item),
        ensures
            final(self).wf(),
            r is Ok <==> (!old(self).has_name(name@) && !old(self).conflicts_with(item)),
            (r == Err::<(), EngineError>(EngineError::DuplicateName)) <==> old(self).has_name(
                name@,
            ),
            (r == Err::<(), EngineError>(EngineError::AddressAlreadyHooked)) <==> (!old(self).has_name(name@) && old(self).conflicts_with(item) && item is Intercept),
            (r == Err::<(), EngineError>(EngineError::DuplicateAddress)) <==> (!old(self).has_name(name@) && old(self).conflicts_with(item) && item is Patch),
            r is Ok ==> final(self).entries() == old(self).entries().push(
                (RegistryEntry { name, item }),
            ),
            r is Err ==> final(self).entries() == old(self).entries(),
    {
        let n = self.entries.len();
        let mut k: usize = 0;
        while k < n
            invariant
                *self == *old(self),
                self.wf(),
                n == self.entries().len(),
                k <= n,
                forall|j: int| 0 <= j < k ==> (#[trigger] self.entries()[j]).name@ != name@,
            decreases n - k,
        {
            if self.entries[k].name == name {
                return Err(EngineError::DuplicateName);
            }
            k += 1;
        }
        let mut k: usize = 0;
        while k < n
            invariant
                *self == *old(self),
                self.wf(),
                item_wf(item),
                n == self.entries().len(),
                k <= n,
                !self.has_name(name@),
                forall|j: int|
                    0 <= j < k ==> !items_overlap((#[trigger] self.entries()[j]).item, item),
            decreases n - k,
        {
            if item_overlaps(&self.entries[k].item, &item) {
                return if matches!(item, RegistryItem::Intercept(_)) {
                    Err(EngineError::AddressAlreadyHooked)
                } else {
                    Err(EngineError::DuplicateAddress)
                };
            }
            k += 1;
        }
        proof {
            let new_entries = self.entries().push((RegistryEntry { name, item }));
            let last = new_entries.len() - 1;
            assert forall|k1: int, k2: int|
                0 <= k1 < new_entries.len() && 0 <= k2 < new_entries.len() && k1 != k2 implies (
            #[trigger] new_entries[k1]).name@ != (#[trigger] new_entries[k2]).name@
                && !items_overlap(new_entries[k1].item, new_entries[k2].item) by {
                if k1 == last {
                    lemma_items_overlap_sym(new_entries[k1].item, new_entries[k2].item);
                } else if k2 == last {
                    assert(!items_overlap(self.entries()[k1].item, item));
                }
            }
        }
        self.entries.push(RegistryEntry { name, item });
        Ok(())
    }

    /// Index `k` names a registered patch.
    pub open spec fn is_patch_at(&self, k: int) -> bool {
        0 <= k < self.entries().len() && self.entries()[k].item is Patch
    }

    pub open spec fn patch_at(&self, k: int) -> PatchSet {
        self.entries()[k].item->Patch_0
    }

    /// Index `k` names a registered hook.
    pub open spec fn is_hook_at(&self, k: int) -> bool {
        0 <= k < self.entries().len() && self.entries()[k].item is Intercept
    }

    pub open spec fn hook_at(&self, k: int) -> InterceptHandle {
        self.entries()[k].item->Intercept_0
    }

    /// Apply or revert the registered patch `k` as one atomic unit; see
    /// [`PatchSet::toggle`]. Fails with `NotFound` when `k` does not name a
    /// patch, leaving memory untouched.
    pub fn toggle_patch(&mut self, mem: &mut MemoryImage, k: usize, enable: bool) -> (r: Result<
        (),
        EngineError,
    >)
        requires
            old(self).wf(),
            old(mem).wf(),
            old(self).is_patch_at(k as int) ==> old(self).patch_at(k as int).in_image(old(mem)),
        ensures
            final(self).wf(),
            final(mem).wf(),
            final(mem).base_addr() == old(mem).base_addr(),
            final(mem).wmask() == old(mem).wmask(),
            final(mem).size() == old(mem).size(),
            (r == Err::<(), EngineError>(EngineError::NotFound)) <==> !old(self).is_patch_at(
                k as int,
            ),
            !old(self).is_patch_at(k as int) ==> final(self).entries() == old(self).entries()
                && final(mem).contents() == old(mem).contents(),
            old(self).is_patch_at(k as int) ==> {
                &&& final(self).entries().len() == old(self).entries().len()
                &&& forall|j: int|
                    0 <= j < old(self).entries().len() && j != k ==> final(self).entries()[j]
                        == old(self).entries()[j]
                &&& final(self).entries()[k as int].name@ == old(self).entries()[k as int].name@
                &&& final(self).is_patch_at(k as int)
                &&& final(self).patch_at(k as int).regions() == old(self).patch_at(
                    k as int,
                ).regions()
                &&& (r is Ok <==> (enable == old(self).patch_at(k as int).applied()
                    || crate::patch::regions_writable(
                    old(self).patch_at(k as int).regions(),
                    old(mem),
                )))
                &&& (r is Err ==> r == Err::<(), EngineError>(EngineError::PartialPatchFailure)
                    && final(mem).contents() == old(mem).contents() && final(self).patch_at(
                    k as int,
                ).applied() == old(self).patch_at(k as int).applied())
                &&& (enable == old(self).patch_at(k as int).applied() ==> final(mem).contents()
                    == old(mem).contents() && final(self).patch_at(k as int).applied() == old(self).patch_at(k as int).applied())
                &&& (enable != old(self).patch_at(k as int).applied() && r is Ok ==> final(self).patch_at(k as int).applied() == enable && final(mem).contents()
                    == crate::patch::write_all(
                    old(mem).contents(),
                    old(mem).base_addr(),
                    old(self).patch_at(k as int).regions(),
                    enable,
                ))
            },
    {
        if k >= self.entries.len() {
            return Err(EngineError::NotFound);
        }
        let ghost old_entries = self.entries@;
        let r = match &mut self.entries[k].item {
            RegistryItem::Patch(p) => p.toggle(mem, enable),
            RegistryItem::Intercept(_) => Err(EngineError::NotFound),
        };
        proof {
            if old_entries[k as int].item is Patch {
                assert(item_ranges(self.entries@[k as int].item) =~= item_ranges(
                    old_entries[k as int].item,
                ));
                lemma_entries_wf_update(old_entries, self.entries@, k as int);
            } else {
                assert(self.entries@ =~= old_entries);
            }
        }
        r
    }

    /// Start diverting control through the registered hook `k`; see
    /// [`InterceptHandle::enable`]. Fails with `NotFound` when `k` does not
    /// name a hook, leaving memory untouched.
    pub fn enable_hook(&mut self, mem: &mut MemoryImage, k: usize) -> (r: Result<(), EngineError>)
        requires
            old(self).wf(),
            old(mem).wf(),
            old(self).is_hook_at(k as int) ==> old(self).hook_at(k as int).in_image(old(mem)),
        ensures
            final(self).wf(),
            final(mem).wf(),
            final(mem).base_addr() == old(mem).base_addr(),
            final(mem).wmask() == old(mem).wmask(),
            final(mem).size() == old(mem).size(),
            (r == Err::<(), EngineError>(EngineError::NotFound)) <==> !old(self).is_hook_at(
                k as int,
            ),
            !old(self).is_hook_at(k as int) ==> final(self).entries() == old(self).entries()
                && final(mem).contents() == old(mem).contents(),
            old(self).is_hook_at(k as int) ==> {
                &&& final(self).entries().len() == old(self).entries().len()
                &&& forall|j: int|
                    0 <= j < old(self).entries().len() && j != k ==> final(self).entries()[j]
                        == old(self).entries()[j]
                &&& final(self).entries()[k as int].name@ == old(self).entries()[k as int].name@
                &&& final(self).is_hook_at(k as int)
                &&& final(self).hook_at(k as int).target_addr() == old(self).hook_at(
                    k as int,
                ).target_addr()
                &&& final(self).hook_at(k as int).callback_addr() == old(self).hook_at(
                    k as int,
                ).callback_addr()
                &&& final(self).hook_at(k as int).original_code() == old(self).hook_at(
                    k as int,
                ).original_code()
                &&& (r is Ok <==> (old(self).hook_at(k as int).diverting()
                    || old(mem).range_writable(
                    old(self).hook_at(k as int).target_addr(),
                    JUMP_LEN as int,
                )))
                &&& (r is Err ==> r == Err::<(), EngineError>(
                    EngineError::MemoryProtectionFailed,
                ) && final(mem).contents() == old(mem).contents() && final(self).hook_at(
                    k as int,
                ).diverting() == old(self).hook_at(k as int).diverting())
                &&& (old(self).hook_at(k as int).diverting() ==> final(mem).contents() == old(mem).contents())
                &&& (!old(self).hook_at(k as int).diverting() && r is Ok ==> final(self).hook_at(
                    k as int,
                ).diverting() && final(mem).contents() == crate::mem::spec_write_bytes(
                    old(mem).contents(),
                    old(self).hook_at(k as int).target_addr() - old(mem).base_addr(),
                    crate::intercept::jump_code(
                        old(self).hook_at(k as int).target_addr(),
                        old(self).hook_at(k as int).callback_addr(),
                    ),
                ))
            },
    {
        if k >= self.entries.len() {
            return Err(EngineError::NotFound);
        }
        let ghost old_entries = self.entries@;
        let r = match &mut self.entries[k].item {
            RegistryItem::Intercept(h) => h.enable(mem),
            RegistryItem::Patch(_) => Err(EngineError::NotFound),
        };
        proof {
            if old_entries[k as int].item is Intercept {
                assert(item_ranges(self.entries@[k as int].item) =~= item_ranges(
                    old_entries[k as int].item,
                ));
                lemma_entries_wf_update(old_entries, self.entries@, k as int);
            } else {
                assert(self.entries@ =~= old_entries);
            }
        }
        r
    }

    /// Stop diverting control through the registered hook `k`, restoring
    /// the original code bytes; see [`InterceptHandle::disable`]. Fails
    /// with `NotFound` when `k` does not name a hook, leaving memory
    /// untouched.
    pub fn disable_hook(&mut self, mem: &mut MemoryImage, k: usize) -> (r: Result<(), EngineError>)
        requires
            old(self).wf(),
            old(mem).wf(),
            old(self).is_hook_at(k as int) ==> old(self).hook_at(k as int).in_image(old(mem)),
        ensures
            final(self).wf(),
            final(mem).wf(),
            final(mem).base_addr() == old(mem).base_addr(),
            final(mem).wmask() == old(mem).wmask(),
            final(mem).size() == old(mem).size(),
            (r == Err::<(), EngineError>(EngineError::NotFound)) <==> !old(self).is_hook_at(
                k as int,
            ),
            !old(self).is_hook_at(k as int) ==> final(self).entries() == old(self).entries()
                && final(mem).contents() == old(mem).contents(),
            old(self).is_hook_at(k as int) ==> {
                &&& final(self).entries().len() == old(self).entries().len()
                &&& forall|j: int|
                    0 <= j < old(self).entries().len() && j != k ==> final(self).entries()[j]
                        == old(self).entries()[j]
                &&& final(self).entries()[k as int].name@ == old(self).entries()[k as int].name@
                &&& final(self).is_hook_at(k as int)
                &&& final(self).hook_at(k as int).target_addr() == old(self).hook_at(
                    k as int,
                ).target_addr()
                &&& final(self).hook_at(k as int).original_code() == old(self).hook_at(
                    k as int,
                ).original_code()
                &&& (r is Ok <==> (!old(self).hook_at(k as int).diverting()
                    || old(mem).range_writable(
                    old(self).hook_at(k as int).target_addr(),
                    JUMP_LEN as int,
                )))
                &&& (r is Err ==> final(mem).contents() == old(mem).contents() && final(self).hook_at(k as int).diverting() == old(self).hook_at(k as int).diverting())
                &&& (!old(self).hook_at(k as int).diverting() ==> final(mem).contents() == old(mem).contents())
                &&& (old(self).hook_at(k as int).diverting() && r is Ok ==> !final(self).hook_at(
                    k as int,
                ).diverting() && final(mem).contents() == crate::mem::spec_write_bytes(
                    old(mem).contents(),
                    old(self).hook_at(k as int).target_addr() - old(mem).base_addr(),
                    old(self).hook_at(k as int).original_code(),
                ))
            },
    {
        if k >= self.entries.len() {
            return Err(EngineError::NotFound);
        }
        let ghost old_entries = self.entries@;
        let r = match &mut self.entries[k].item {
            RegistryItem::Intercept(h) => h.disable(mem),
            RegistryItem::Patch(_) => Err(EngineError::NotFound),
        };
        proof {
            if old_entries[k as int].item is Intercept {
                assert(item_ranges(self.entries@[k as int].item) =~= item_ranges(
                    old_entries[k as int].item,
                ));
                lemma_entries_wf_update(old_entries, self.entries@, k as int);
            } else {
                assert(self.entries@ =~= old_entries);
            }
        }
        r
    }
}

/// Whether any range of `a` overlaps any range of `b`.
fn item_overlaps(a: &RegistryItem, b: &RegistryItem) -> (r: bool)
    requires
        item_wf(*a),
        item_wf(*b),
    ensures
        r == items_overlap(*a, *b),
{
    let ra = item_ranges_vec(a);
    let rb = item_ranges_vec(b);
    let mut x: usize = 0;
    while x < ra.len()
        invariant
            item_wf(*a),
            item_wf(*b),
            ra@.len() == item_ranges(*a).len(),
            rb@.len() == item_ranges(*b).len(),
            forall|i: int|
                0 <= i < ra@.len() ==> (#[trigger] ra@[i]).0 as int == item_ranges(*a)[i].0
                    && ra@[i].1 as int == item_ranges(*a)[i].1 && ra@[i].0 + ra@[i].1
                    <= usize::MAX,
            forall|i: int|
                0 <= i < rb@.len() ==> (#[trigger] rb@[i]).0 as int == item_ranges(*b)[i].0
                    && rb@[i].1 as int == item_ranges(*b)[i].1 && rb@[i].0 + rb@[i].1
                    <= usize::MAX,
            x <= ra@.len(),
            forall|i: int, j: int|
                0 <= i < x && 0 <= j < rb@.len() ==> ranges_disjoint(
                    (#[trigger] item_ranges(*a)[i]).0,
                    item_ranges(*a)[i].1,
                    (#[trigger] item_ranges(*b)[j]).0,
                    item_ranges(*b)[j].1,
                ),
        decreases ra@.len() - x,
    {
        let (a1, l1) = ra[x];
        let mut y: usize = 0;
        while y < rb.len()
            invariant
                item_wf(*a),
                item_wf(*b),
                ra@.len() == item_ranges(*a).len(),
                rb@.len() == item_ranges(*b).len(),
                forall|i: int|
                    0 <= i < ra@.len() ==> (#[trigger] ra@[i]).0 as int == item_ranges(*a)[i].0
                        && ra@[i].1 as int == item_ranges(*a)[i].1 && ra@[i].0 + ra@[i].1
                        <= usize::MAX,
                forall|i: int|
                    0 <= i < rb@.len() ==> (#[trigger] rb@[i]).0 as int == item_ranges(*b)[i].0
                        && rb@[i].1 as int == item_ranges(*b)[i].1 && rb@[i].0 + rb@[i].1
                        <= usize::MAX,
                x < ra@.len(),
                y <= rb@.len(),
                a1 == ra@[x as int].0,
                l1 == ra@[x as int].1,
                forall|j: int|
                    0 <= j < y ==> ranges_disjoint(
                        item_ranges(*a)[x as int].0,
                        item_ranges(*a)[x as int].1,
                        (#[trigger] item_ranges(*b)[j]).0,
                        item_ranges(*b)[j].1,
                    ),
            decreases rb@.len() - y,
        {
            let (a2, l2) = rb[y];
            if !(a1 + l1 <= a2 || a2 + l2 <= a1) {
                return true;
            }
            y += 1;
        }
        x += 1;
    }
    false
}

/// The ranges of an item as executable values.
fn item_ranges_vec(item: &RegistryItem) -> (r: Vec<(usize, usize)>)
    requires
        item_wf(*item),
    ensures
        r@.len() == item_ranges(*item).len(),
        forall|i: int|
            0 <= i < r@.len() ==> (#[trigger] r@[i]).0 as int == item_ranges(*item)[i].0
                && r@[i].1 as int == item_ranges(*item)[i].1 && r@[i].0 + r@[i].1 <= usize::MAX,
{
    match item {
        RegistryItem::Intercept(h) => {
            let mut r: Vec<(usize, usize)> = Vec::new();
            r.push((h.target(), JUMP_LEN));
            proof {
                assert(item_ranges(*item) =~= seq![(h.target_addr(), JUMP_LEN as int)]);
                assert(r@[0].0 as int == item_ranges(*item)[0].0);
                assert(r@[0].1 as int == item_ranges(*item)[0].1);
            }
            r
        },
        RegistryItem::Patch(p) => {
            let n = p.region_count();
            let mut r: Vec<(usize, usize)> = Vec::new();
            let mut k: usize = 0;
            while k < n
                invariant
                    p.wf(),
                    n == p.regions().len(),
                    k <= n,
                    r@.len() == k,
                    forall|i: int|
                        0 <= i < k ==> (#[trigger] r@[i]).0 == p.regions()[i].addr && r@[i].1
                            as int == region_len(p.regions()[i]),
                decreases n - k,
            {
                let range = p.region_range(k);
                r.push(range);
                k += 1;
            }
            r
        },
    }
}

} // verus!
