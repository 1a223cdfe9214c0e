use vstd::prelude::*;
use crate::HvError;
use crate::allocator::{
    alloc_post, fits, spec_round_up, BumpAllocator, PAGE_SIZE,
    lemma_page_alloc_preserves_fit,
};

verus! {

/// Leaf permission: readable.
pub const PTE_R: u64 = 2;

/// Leaf permission: writable.
pub const PTE_W: u64 = 4;

/// Leaf permission: executable.
pub const PTE_X: u64 = 8;

/// Entry is valid (present in the tree).
pub const PTE_V: u64 = 1;

/// Leaf permission: accessible from the guest's user-level view.
pub const PTE_U: u64 = 16;

/// Bit offset of the physical page number inside an entry.
pub const PTE_PPN_SHIFT: u64 = 10;

/// Bit offset of the page offset inside a physical address.
pub const PPN_SHIFT: u64 = 12;

/// An entry carries a valid bit.
pub open spec fn pte_valid(e: u64) -> bool {
    e & 1 != 0
}

/// The physical address an entry points at: its page number, re-shifted into
/// an address.
pub open spec fn pte_target(e: u64) -> u64 {
    (e >> 10) << 12
}

/// The permission/valid bits of an entry.
pub open spec fn pte_perm_bits(e: u64) -> u64 {
    e & 0x3ff
}

/// The 9-bit slice of a guest-physical address that indexes a table at the
/// given level (levels 3 down to 0, each slice at bit offset `12 + 9*level`).
pub open spec fn pt_index(g: u64, level: u64) -> u64
    recommends
        level <= 3,
{
    (g >> ((12 + 9 * level) as u64)) & 0x1ff
}

/// The leaf entry `map` installs for host page `h` with permissions `flags`:
/// the host page number at its bit offset, the given permissions, and the
/// Valid and User bits.
pub open spec fn leaf_pte(h: u64, flags: u64) -> u64 {
    ((h >> 12) << 10) | flags | 0x11
}

/// One 64-bit page-table entry.
#[derive(Debug, Clone, Copy, PartialEq, Eq, Structural)]
pub struct Entry(pub u64);

impl Entry {
    /// Packs a physical address and flag bits into an entry word.
    pub fn new(paddr: u64, flags: u64) -> (r: Entry)
        ensures
            r.0 == ((paddr >> 12) << 10) | flags,
    {
        let ppn = paddr >> PPN_SHIFT;
        Entry(ppn << PTE_PPN_SHIFT | flags)
    }

    pub fn is_valid(&self) -> (r: bool)
        ensures
            r == pte_valid(self.0),
    {
        self.0 & PTE_V != 0
    }

    /// The physical address this entry points at.
    pub fn paddr(&self) -> (r: u64)
        ensures
            r == pte_target(self.0),
    {
        (self.0 >> PTE_PPN_SHIFT) << PPN_SHIFT
    }
}

/// One radix-tree node: a page-sized array of 512 entries, tagged with the
/// physical address it was allocated at and the level of the tree it serves.
pub struct Table {
    /// Host-physical address of this table page.
    pub addr: u64,
    /// Tree level this table serves: 3 for the root down to 0 for leaves.
    pub level: u64,
    /// The 512 entries of the page.
    pub entries: Vec<Entry>,
}

impl Table {
    pub open spec fn wf(self) -> bool {
        &&& self.entries.len() == 512
        &&& self.level <= 3
        &&& self.addr % 4096 == 0
    }

    /// Every entry of the page is still the zero word.
    pub open spec fn all_zero(self) -> bool {
        forall|k: int| 0 <= k < self.entries@.len() ==> (#[trigger] self.entries@[k]).0 == 0
    }

    /// Reserves one zeroed page from the allocator as a fresh table for the
    /// given level. The caller guarantees room; exhaustion here would be
    /// fatal to the hypervisor.
    pub fn allocate(palloc: &mut BumpAllocator, level: u64) -> (t: Table)
        requires
            old(palloc).active,
            old(palloc).wf(),
            level <= 3,
            fits(*old(palloc), PAGE_SIZE as int, PAGE_SIZE as int),
        ensures
            t.wf(),
            t.level == level,
            t.all_zero(),
            t.addr == spec_round_up(old(palloc).next as int, PAGE_SIZE as int),
            alloc_post(*old(palloc), *final(palloc), PAGE_SIZE, PAGE_SIZE, t.addr),
            final(palloc).active,
            final(palloc).wf(),
    {
        let addr = match palloc.allocate(PAGE_SIZE, PAGE_SIZE) {
            Ok(addr) => addr,
            Err(_) => {
                proof {
                    assert(false);
                }
                0
            },
        };
        let mut entries: Vec<Entry> = Vec::new();
        let mut k: usize = 0;
        while k < 512
            invariant
                entries@.len() == k,
                k <= 512,
                forall|i: int| 0 <= i < k ==> (#[trigger] entries@[i]).0 == 0,
            decreases 512 - k,
        {
            entries.push(Entry(0));
            k = k + 1;
        }
        Table { addr, level, entries }
    }

    /// The entry this table holds for `guest_paddr`: the one at the 9-bit
    /// index slice belonging to `level`.
    pub fn entry_by_addr(&self, guest_paddr: u64, level: u64) -> (r: Entry)
        requires
            self.wf(),
            level <= 3,
        ensures
            r == self.entries@[pt_index(guest_paddr, level) as int],
    {
        let index = (guest_paddr >> (12 + 9 * level)) & 0x1ff;
        proof {
            assert((guest_paddr >> ((12 + 9 * level) as u64)) & 0x1ff < 512) by (bit_vector);
        }
        self.entries[index as usize]
    }

    /// Replaces the entry for `guest_paddr` at `level`.
    pub fn set_entry_by_addr(&mut self, guest_paddr: u64, level: u64, e: Entry)
        requires
            old(self).wf(),
            level <= 3,
        ensures
            final(self).addr == old(self).addr,
            final(self).level == old(self).level,
            final(self).entries@ == old(self).entries@.update(
                pt_index(guest_paddr, level) as int,
                e,
            ),
            final(self).wf(),
    {
        let index = (guest_paddr >> (12 + 9 * level)) & 0x1ff;
        proof {
            assert((guest_paddr >> ((12 + 9 * level) as u64)) & 0x1ff < 512) by (bit_vector);
        }
        self.entries.set(index as usize, e);
    }
}

/// The 4-level radix tree that maps guest-physical pages to host-physical
/// pages for second-stage translation. It owns every table page it has
/// allocated; the root is the first.
pub struct GuestPageTable {
    pub tables: Vec<Table>,
}

impl GuestPageTable {
    /// Some owned table sits at physical address `addr`.
    pub open spec fn has_addr(self, addr: u64) -> bool {
        exists|j: int| 0 <= j < self.tables@.len() && self.tables@[j].addr == addr
    }

    /// Some owned table sits at physical address `addr` and serves `level`.
    pub open spec fn has_table(self, addr: u64, level: u64) -> bool {
        exists|j: int|
            0 <= j < self.tables@.len() && self.tables@[j].addr == addr && self.tables@[j].level
                == level
    }

    /// Index of the owned table at physical address `addr`.
    pub open spec fn index_of(self, addr: u64) -> int {
        choose|j: int| 0 <= j < self.tables@.len() && self.tables@[j].addr == addr
    }

    /// Every table page lies wholly below `bound` in physical memory: how the
    /// tree stays apart from what the allocator has not yet handed out.
    pub open spec fn below(self, bound: u64) -> bool {
        forall|i: int|
            0 <= i < self.tables@.len() ==> (#[trigger] self.tables@[i]).addr + 4096 <= bound
    }

    /// The structural invariant of the tree.
    ///
    /// The root serves level 3; table addresses are distinct (so a physical
    /// address resolves to one table); every valid entry of a branch table
    /// carries only the Valid bit and points at an owned table one level
    /// down; every valid entry of a leaf table carries Valid and User.
    pub open spec fn wf(self) -> bool {
        &&& self.tables@.len() >= 1
        &&& self.tables@[0].level == 3
        &&& forall|i: int| 0 <= i < self.tables@.len() ==> (#[trigger] self.tables@[i]).wf()
        &&& forall|i: int, j: int|
            #![trigger self.tables@[i].addr, self.tables@[j].addr]
            0 <= i < self.tables@.len() && 0 <= j < self.tables@.len() && i != j
                ==> self.tables@[i].addr != self.tables@[j].addr
        &&& forall|i: int, k: int|
            #![trigger self.tables@[i].entries@[k]]
            0 <= i < self.tables@.len() && 0 <= k < 512 && self.tables@[i].level >= 1 && pte_valid(
                self.tables@[i].entries@[k].0,
            ) ==> pte_perm_bits(self.tables@[i].entries@[k].0) == 1 && self.has_table(
                pte_target(self.tables@[i].entries@[k].0),
                (self.tables@[i].level - 1) as u64,
            )
        &&& forall|i: int, k: int|
            #![trigger self.tables@[i].entries@[k]]
            0 <= i < self.tables@.len() && 0 <= k < 512 && self.tables@[i].level == 0 && pte_valid(
                self.tables@[i].entries@[k].0,
            ) ==> self.tables@[i].entries@[k].0 & 0x11 == 0x11
    }

    /// The walk that the translation hardware performs from table `ti` at
    /// `level`, using `g`'s per-level index slices: `None` as soon as an
    /// invalid entry is met, otherwise the leaf entry reached at level 0.
    pub open spec fn walk_from(self, ti: int, level: u64, g: u64) -> Option<u64>
        recommends
            0 <= ti < self.tables@.len(),
            level <= 3,
        decreases level,
    {
        let e = self.tables@[ti].entries@[pt_index(g, level) as int].0;
        if !pte_valid(e) {
            None
        } else if level == 0 {
            Some(e)
        } else if self.has_addr(pte_target(e)) {
            self.walk_from(self.index_of(pte_target(e)), (level - 1) as u64, g)
        } else {
            None
        }
    }

    /// The full hardware walk: from the root, down all four levels.
    pub open spec fn spec_walk(self, g: u64) -> Option<u64> {
        self.walk_from(0, 3, g)
    }

    /// What a second mapping of the same pages must never do: valid entries
    /// of `pre`, and the place and level of every table, survive into `post`
    /// untouched.
    pub open spec fn entries_preserved(pre: GuestPageTable, post: GuestPageTable) -> bool {
        &&& post.tables@.len() >= pre.tables@.len()
        &&& forall|i: int|
            0 <= i < pre.tables@.len() ==> (#[trigger] post.tables@[i]).addr
                == pre.tables@[i].addr && post.tables@[i].level == pre.tables@[i].level
        &&& forall|i: int, k: int|
            #![trigger post.tables@[i].entries@[k]]
            0 <= i < pre.tables@.len() && 0 <= k < 512 && pte_valid(pre.tables@[i].entries@[k].0)
                ==> post.tables@[i].entries@[k] == pre.tables@[i].entries@[k]
    }

    /// Allocates and zeroes a root table page: a tree that translates
    /// nothing yet.
    pub fn new(palloc: &mut BumpAllocator) -> (r: GuestPageTable)
        requires
            old(palloc).active,
            old(palloc).wf(),
            fits(*old(palloc), PAGE_SIZE as int, PAGE_SIZE as int),
        ensures
            r.wf(),
            r.tables@.len() == 1,
            r.tables@[0].addr == spec_round_up(old(palloc).next as int, PAGE_SIZE as int),
            r.below(final(palloc).next),
            final(palloc).active,
            final(palloc).wf(),
            final(palloc).end == old(palloc).end,
            final(palloc).next >= old(palloc).next,
            forall|g: u64| r.spec_walk(g) is None,
    {
        let root = Table::allocate(palloc, 3);
        let mut tables: Vec<Table> = Vec::new();
        tables.push(root);
        let r = GuestPageTable { tables };
        proof {
            assert(0u64 & 1 == 0) by (bit_vector);
            assert forall|g: u64| r.spec_walk(g) is None by {
                assert(pt_index(g, 3) < 512) by {
                    assert((g >> ((12 + 9 * 3) as u64)) & 0x1ff < 512) by (bit_vector);
                }
                assert(r.tables@[0].entries@[pt_index(g, 3) as int].0 == 0);
            }
        }
        r
    }

    /// The translation-root descriptor loaded before every guest entry: the
    /// two-stage translation mode selector in the top bits, the root table's
    /// physical page number in the low bits.
    pub fn hgatp(&self) -> (r: u64)
        requires
            self.wf(),
        ensures
            r == (9u64 << 60) | (self.tables@[0].addr >> 12),
            r >> 60 == 9,
            r & 0x0fff_ffff_ffff_ffff == self.tables@[0].addr >> 12,
            (r & 0x0fff_ffff_ffff_ffff) << 12 == self.tables@[0].addr,
    {
        let root_addr = self.tables[0].addr;
        proof {
            assert(((9u64 << 60) | (root_addr >> 12)) >> 60 == 9 && ((9u64 << 60) | (root_addr
                >> 12)) & 0x0fff_ffff_ffff_ffff == root_addr >> 12 && ((((9u64 << 60) | (root_addr
                >> 12)) & 0x0fff_ffff_ffff_ffff) << 12) == root_addr) by (bit_vector)
                requires
                    root_addr % 4096 == 0,
            ;
        }
        (9u64 << 60) | (root_addr >> PPN_SHIFT)
    }

    /// Index of the owned table at `addr`, found by scanning the owned pages.
    fn find_table(&self, addr: u64) -> (r: usize)
        requires
            self.has_addr(addr),
        ensures
            r < self.tables@.len(),
            self.tables@[r as int].addr == addr,
    {
        let n = self.tables.len();
        let mut i: usize = 0;
        while i < n
            invariant
                n == self.tables@.len(),
                i <= n,
                self.has_addr(addr),
                forall|k: int| 0 <= k < i ==> self.tables@[k].addr != addr,
            decreases n - i,
        {
            if self.tables[i].addr == addr {
                return i;
            }
            i = i + 1;
        }
        proof {
            assert(false);
        }
        0
    }
}

/// A walk that meets an invalid entry stops with `None`.
proof fn lemma_walk_stops(s: GuestPageTable, g: u64, ti: int, level: u64)
    requires
        level <= 3,
        !pte_valid(s.tables@[ti].entries@[pt_index(g, level) as int].0),
    ensures
        s.walk_from(ti, level, g) is None,
{
}

/// A valid branch entry carries the walk to the unique owned table whose
/// address it holds.
proof fn lemma_walk_step(s: GuestPageTable, g: u64, ti: int, level: u64, tc: int)
    requires
        s.wf(),
        0 <= ti < s.tables@.len(),
        0 <= tc < s.tables@.len(),
        1 <= level <= 3,
        pte_valid(s.tables@[ti].entries@[pt_index(g, level) as int].0),
        pte_target(s.tables@[ti].entries@[pt_index(g, level) as int].0) == s.tables@[tc].addr,
    ensures
        s.walk_from(ti, level, g) == s.walk_from(tc, (level - 1) as u64, g),
{
    let e = s.tables@[ti].entries@[pt_index(g, level) as int].0;
    assert(s.has_addr(pte_target(e)));
    let j = s.index_of(pte_target(e));
    assert(0 <= j < s.tables@.len() && s.tables@[j].addr == pte_target(e));
    assert(j == tc);
}

/// Whatever preserves every valid entry, and the place and level of every
/// table, preserves every established translation: a walk that reached a
/// leaf before reaches the same leaf after.
pub proof fn lemma_walk_preserved(
    pre: GuestPageTable,
    post: GuestPageTable,
    g: u64,
    ti: int,
    level: u64,
)
    requires
        pre.wf(),
        post.wf(),
        GuestPageTable::entries_preserved(pre, post),
        0 <= ti < pre.tables@.len(),
        pre.tables@[ti].level == level,
        level <= 3,
        pre.walk_from(ti, level, g) is Some,
    ensures
        post.walk_from(ti, level, g) == pre.walk_from(ti, level, g),
    decreases level,
{
    assert(pt_index(g, level) < 512) by (bit_vector);
    let idx = pt_index(g, level) as int;
    let e = pre.tables@[ti].entries@[idx].0;
    assert(pte_valid(e));
    assert(post.tables@[ti].entries@[idx] == pre.tables@[ti].entries@[idx]);
    if level == 0 {
    } else {
        assert(pre.has_table(pte_target(e), (level - 1) as u64));
        let j = choose|j: int|
            0 <= j < pre.tables@.len() && pre.tables@[j].addr == pte_target(e)
                && pre.tables@[j].level == (level - 1) as u64;
        assert(pre.has_addr(pte_target(e)));
        assert(pre.index_of(pte_target(e)) == j);
        assert(post.tables@[j].addr == pte_target(e));
        assert(post.has_addr(pte_target(e)));
        assert(post.index_of(pte_target(e)) == j);
        lemma_walk_preserved(pre, post, g, j, (level - 1) as u64);
    }
}

impl GuestPageTable {
    /// One step of `map`'s downward traversal, from the table at index `ti`
    /// serving `level`: returns the index of the child table for `g` one
    /// level down, allocating and linking a fresh zeroed table if the branch
    /// entry was invalid.
    fn descend(&mut self, palloc: &mut BumpAllocator, ti: usize, level: u64, g: u64) -> (r: usize)
        requires
            old(self).wf(),
            old(palloc).active,
            old(palloc).wf(),
            old(self).below(old(palloc).next),
            1 <= level <= 3,
            (ti as int) < old(self).tables@.len(),
            old(self).tables@[ti as int].level == level,
            fits(*old(palloc), (level as int) * (PAGE_SIZE as int), PAGE_SIZE as int),
        ensures
            final(self).wf(),
            final(palloc).active,
            final(palloc).wf(),
            final(palloc).end == old(palloc).end,
            final(self).below(final(palloc).next),
            fits(*final(palloc), (level as int - 1) * (PAGE_SIZE as int), PAGE_SIZE as int),
            GuestPageTable::entries_preserved(*old(self), *final(self)),
            (r as int) < final(self).tables@.len(),
            final(self).tables@[r as int].level == level - 1,
            pte_valid(final(self).tables@[ti as int].entries@[pt_index(g, level) as int].0),
            pte_target(final(self).tables@[ti as int].entries@[pt_index(g, level) as int].0)
                == final(self).tables@[r as int].addr,
            (*final(self) == *old(self) && *final(palloc) == *old(palloc)) || (!pte_valid(
                old(self).tables@[ti as int].entries@[pt_index(g, level) as int].0,
            ) && final(self).tables@[r as int].all_zero()),
    {
        proof {
            assert(pt_index(g, level) < 512) by (bit_vector);
        }
        let e = self.tables[ti].entry_by_addr(g, level);
        if e.is_valid() {
            let child_addr = e.paddr();
            proof {
                assert(self.has_table(child_addr, (level - 1) as u64));
                let j = choose|j: int|
                    0 <= j < self.tables@.len() && self.tables@[j].addr == child_addr
                        && self.tables@[j].level == (level - 1) as u64;
                assert(self.has_addr(child_addr));
            }
            let r = self.find_table(child_addr);
            proof {
                let j = choose|j: int|
                    0 <= j < self.tables@.len() && self.tables@[j].addr == child_addr
                        && self.tables@[j].level == (level - 1) as u64;
                assert(r as int == j);
            }
            r
        } else {
            let ghost s0 = *old(self);
            let ghost p0 = *old(palloc);
            let t = Table::allocate(palloc, level - 1);
            let child_addr = t.addr;
            let ghost tg = t;
            proof {
                lemma_page_alloc_preserves_fit(p0, *palloc, child_addr, level as int);
            }
            let newi = self.tables.len();
            self.tables.push(t);
            let be = Entry::new(child_addr, PTE_V);
            self.tables[ti].set_entry_by_addr(g, level, be);
            proof {
                let fin = *self;
                let idx = pt_index(g, level) as int;
                let bev = be.0;
                assert(pte_valid(bev) && pte_perm_bits(bev) == 1 && pte_target(bev) == child_addr
                    && bev & 0x11 != 0x11) by (bit_vector)
                    requires
                        child_addr % 4096 == 0,
                        bev == ((child_addr >> 12) << 10) | 1u64,
                ;
                assert(0u64 & 1 == 0) by (bit_vector);
                // the shape of the final table sequence
                assert(fin.tables@.len() == s0.tables@.len() + 1);
                assert(fin.tables@[newi as int] == tg);
                assert(forall|i: int|
                    0 <= i < s0.tables@.len() && i != ti ==> fin.tables@[i] == s0.tables@[i]);
                assert(fin.tables@[ti as int].addr == s0.tables@[ti as int].addr);
                assert(fin.tables@[ti as int].level == level);
                assert(fin.tables@[ti as int].entries@ == s0.tables@[ti as int].entries@.update(
                    idx,
                    be,
                ));
                // the fresh page is distinct from every owned table page
                assert(child_addr >= p0.next);
                assert(forall|i: int|
                    0 <= i < s0.tables@.len() ==> (#[trigger] fin.tables@[i]).addr != child_addr);
                assert(forall|i: int, j: int|
                    #![trigger fin.tables@[i].addr, fin.tables@[j].addr]
                    0 <= i < fin.tables@.len() && 0 <= j < fin.tables@.len() && i != j
                        ==> fin.tables@[i].addr != fin.tables@[j].addr);
                // every owned table is still well-formed
                assert(forall|i: int| 0 <= i < fin.tables@.len() ==> (#[trigger] fin.tables@[i]).wf());
                // valid branch entries still carry only Valid and point one level down
                assert forall|i: int, k: int|
                    0 <= i < fin.tables@.len() && 0 <= k < 512 && fin.tables@[i].level >= 1
                        && pte_valid((#[trigger] fin.tables@[i].entries@[k]).0) implies pte_perm_bits(
                    fin.tables@[i].entries@[k].0,
                ) == 1 && fin.has_table(
                    pte_target(fin.tables@[i].entries@[k].0),
                    (fin.tables@[i].level - 1) as u64,
                ) by {
                    if i == newi as int {
                        assert(fin.tables@[i].entries@[k].0 == 0);
                    } else if i == ti as int && k == idx {
                        assert(fin.tables@[newi as int].addr == child_addr);
                        assert(fin.tables@[newi as int].level == level - 1);
                    } else {
                        assert(s0.tables@[i].entries@[k] == fin.tables@[i].entries@[k]);
                        assert(pte_perm_bits(s0.tables@[i].entries@[k].0) == 1 && s0.has_table(
                            pte_target(s0.tables@[i].entries@[k].0),
                            (s0.tables@[i].level - 1) as u64,
                        ));
                        let w = choose|w: int|
                            0 <= w < s0.tables@.len() && s0.tables@[w].addr == pte_target(
                                s0.tables@[i].entries@[k].0,
                            ) && s0.tables@[w].level == (s0.tables@[i].level - 1) as u64;
                        assert(fin.tables@[w].addr == s0.tables@[w].addr && fin.tables@[w].level
                            == s0.tables@[w].level);
                    }
                }
                // valid leaf entries still carry Valid and User
                assert forall|i: int, k: int|
                    0 <= i < fin.tables@.len() && 0 <= k < 512 && fin.tables@[i].level == 0
                        && pte_valid((#[trigger] fin.tables@[i].entries@[k]).0) implies fin.tables@[i].entries@[k].0
                    & 0x11 == 0x11 by {
                    if i == newi as int {
                        assert(fin.tables@[i].entries@[k].0 == 0);
                    } else {
                        assert(s0.tables@[i].entries@[k] == fin.tables@[i].entries@[k]);
                    }
                }
                assert(fin.wf());
                assert(fin.below(palloc.next));
            }
            newi
        }
    }

    /// Installs the translation of guest-physical page `guest_paddr` to
    /// host-physical page `host_paddr` with permissions `flags`, walking
    /// levels 3 down to 1 and allocating any missing intermediate table.
    ///
    /// Mapping a page that is already mapped is a design violation, never a
    /// silent overwrite: it is refused with `AlreadyMapped` and changes
    /// nothing. Otherwise the walk of `guest_paddr` afterwards reaches
    /// exactly the leaf entry `leaf_pte(host_paddr, flags)`, and every valid
    /// entry that existed before is untouched.
    pub fn map(
        &mut self,
        palloc: &mut BumpAllocator,
        guest_paddr: u64,
        host_paddr: u64,
        flags: u64,
    ) -> (r: Result<(), HvError>)
        requires
            old(self).wf(),
            old(palloc).active,
            old(palloc).wf(),
            old(self).below(old(palloc).next),
            guest_paddr % 4096 == 0,
            host_paddr % 4096 == 0,
            flags <= 0x3ff,
            fits(*old(palloc), 3 * (PAGE_SIZE as int), PAGE_SIZE as int),
        ensures
            final(self).wf(),
            final(palloc).active,
            final(palloc).wf(),
            final(palloc).end == old(palloc).end,
            final(self).below(final(palloc).next),
            GuestPageTable::entries_preserved(*old(self), *final(self)),
            final(self).tables@[0].addr == old(self).tables@[0].addr,
            r is Err <==> old(self).spec_walk(guest_paddr) is Some,
            r is Err ==> *final(self) == *old(self) && *final(palloc) == *old(palloc) && r
                == Err::<(), HvError>(HvError::AlreadyMapped),
            r is Ok ==> final(self).spec_walk(guest_paddr) == Some(
                leaf_pte(host_paddr, flags),
            ),
            forall|g2: u64|
                old(self).spec_walk(g2) is Some ==> final(self).spec_walk(g2) == old(
                    self,
                ).spec_walk(g2),
    {
        let ghost s0 = *old(self);
        let ghost p0 = *old(palloc);
        proof {
            assert(pt_index(guest_paddr, 3) < 512 && pt_index(guest_paddr, 2) < 512 && pt_index(
                guest_paddr,
                1,
            ) < 512 && pt_index(guest_paddr, 0) < 512) by (bit_vector);
            assert(0u64 & 1 == 0) by (bit_vector);
        }
        let t1 = self.descend(palloc, 0, 3, guest_paddr);
        let ghost s1 = *self;
        let ghost p1 = *palloc;
        let t2 = self.descend(palloc, t1, 2, guest_paddr);
        let ghost s2 = *self;
        let ghost p2 = *palloc;
        let t0 = self.descend(palloc, t2, 1, guest_paddr);
        let ghost s3 = *self;
        let ghost p3 = *palloc;
        let ghost idx3 = pt_index(guest_paddr, 3) as int;
        let ghost idx2 = pt_index(guest_paddr, 2) as int;
        let ghost idx1 = pt_index(guest_paddr, 1) as int;
        let ghost idx0 = pt_index(guest_paddr, 0) as int;
        proof {
            // the links each step installed persist to the state after all
            // three steps, because later steps only touch invalid entries
            assert(s2.tables@[0].entries@[idx3] == s1.tables@[0].entries@[idx3]);
            assert(s3.tables@[0].entries@[idx3] == s2.tables@[0].entries@[idx3]);
            assert(s3.tables@[t1 as int].entries@[idx2] == s2.tables@[t1 as int].entries@[idx2]);
            assert(s3.tables@[0].addr == s0.tables@[0].addr);
        }
        let leaf = self.tables[t0].entry_by_addr(guest_paddr, 0);
        if leaf.is_valid() {
            proof {
                // a freshly allocated table is all zero, so a valid leaf
                // means no step allocated: the tree is exactly as it was
                assert(s3 == s2 && p3 == p2);
                assert(s2 == s1 && p2 == p1);
                assert(s1 == s0 && p1 == p0);
                lemma_walk_step(s0, guest_paddr, 0, 3, t1 as int);
                lemma_walk_step(s0, guest_paddr, t1 as int, 2, t2 as int);
                lemma_walk_step(s0, guest_paddr, t2 as int, 1, t0 as int);
                assert(s0.spec_walk(guest_paddr) == Some(leaf.0));
            }
            return Err(HvError::AlreadyMapped);
        }
        let e = Entry::new(host_paddr, flags | PTE_V | PTE_U);
        proof {
            let ev = e.0;
            assert(ev == leaf_pte(host_paddr, flags) && pte_valid(ev) && ev & 0x11 == 0x11)
                by (bit_vector)
                requires
                    ev == ((host_paddr >> 12) << 10) | ((flags | 1u64) | 16u64),
            ;
        }
        self.tables[t0].set_entry_by_addr(guest_paddr, 0, e);
        proof {
            let fin = *self;
            // the walk of guest_paddr before the call found an invalid entry
            if !(s1 == s0 && p1 == p0) {
                lemma_walk_stops(s0, guest_paddr, 0, 3);
            } else if !(s2 == s1 && p2 == p1) {
                lemma_walk_step(s0, guest_paddr, 0, 3, t1 as int);
                lemma_walk_stops(s0, guest_paddr, t1 as int, 2);
            } else if !(s3 == s2 && p3 == p2) {
                lemma_walk_step(s0, guest_paddr, 0, 3, t1 as int);
                lemma_walk_step(s0, guest_paddr, t1 as int, 2, t2 as int);
                lemma_walk_stops(s0, guest_paddr, t2 as int, 1);
            } else {
                lemma_walk_step(s0, guest_paddr, 0, 3, t1 as int);
                lemma_walk_step(s0, guest_paddr, t1 as int, 2, t2 as int);
                lemma_walk_step(s0, guest_paddr, t2 as int, 1, t0 as int);
                lemma_walk_stops(s0, guest_paddr, t0 as int, 0);
            }
            assert(s0.spec_walk(guest_paddr) is None);
            // the final tree: only the one leaf entry changed
            assert(fin.tables@.len() == s3.tables@.len());
            assert(forall|i: int|
                0 <= i < s3.tables@.len() && i != t0 ==> fin.tables@[i] == s3.tables@[i]);
            assert(fin.tables@[t0 as int].addr == s3.tables@[t0 as int].addr);
            assert(fin.tables@[t0 as int].level == 0);
            assert(fin.tables@[t0 as int].entries@ == s3.tables@[t0 as int].entries@.update(
                idx0,
                e,
            ));
            assert(forall|i: int, j: int|
                #![trigger fin.tables@[i].addr, fin.tables@[j].addr]
                0 <= i < fin.tables@.len() && 0 <= j < fin.tables@.len() && i != j
                    ==> fin.tables@[i].addr != fin.tables@[j].addr);
            assert(forall|i: int| 0 <= i < fin.tables@.len() ==> (#[trigger] fin.tables@[i]).wf());
            assert forall|i: int, k: int|
                0 <= i < fin.tables@.len() && 0 <= k < 512 && fin.tables@[i].level >= 1
                    && pte_valid((#[trigger] fin.tables@[i].entries@[k]).0) implies pte_perm_bits(
                fin.tables@[i].entries@[k].0,
            ) == 1 && fin.has_table(
                pte_target(fin.tables@[i].entries@[k].0),
                (fin.tables@[i].level - 1) as u64,
            ) by {
                assert(i != t0);
                assert(s3.tables@[i].entries@[k] == fin.tables@[i].entries@[k]);
                assert(pte_perm_bits(s3.tables@[i].entries@[k].0) == 1 && s3.has_table(
                    pte_target(s3.tables@[i].entries@[k].0),
                    (s3.tables@[i].level - 1) as u64,
                ));
                let w = choose|w: int|
                    0 <= w < s3.tables@.len() && s3.tables@[w].addr == pte_target(
                        s3.tables@[i].entries@[k].0,
                    ) && s3.tables@[w].level == (s3.tables@[i].level - 1) as u64;
                assert(fin.tables@[w].addr == s3.tables@[w].addr && fin.tables@[w].level
                    == s3.tables@[w].level);
            }
            assert forall|i: int, k: int|
                0 <= i < fin.tables@.len() && 0 <= k < 512 && fin.tables@[i].level == 0
                    && pte_valid((#[trigger] fin.tables@[i].entries@[k]).0) implies fin.tables@[i].entries@[k].0
                & 0x11 == 0x11 by {
                if i == t0 as int && k == idx0 {
                } else {
                    assert(s3.tables@[i].entries@[k] == fin.tables@[i].entries@[k]);
                }
            }
            assert(fin.wf());
            // the three links still stand in the final tree, so the walk of
            // guest_paddr now reaches the new leaf
            assert(fin.tables@[0].entries@[idx3] == s3.tables@[0].entries@[idx3]);
            assert(fin.tables@[t1 as int].entries@[idx2] == s3.tables@[t1 as int].entries@[idx2]);
            assert(fin.tables@[t2 as int].entries@[idx1] == s3.tables@[t2 as int].entries@[idx1]);
            lemma_walk_step(fin, guest_paddr, 0, 3, t1 as int);
            lemma_walk_step(fin, guest_paddr, t1 as int, 2, t2 as int);
            lemma_walk_step(fin, guest_paddr, t2 as int, 1, t0 as int);
            assert(fin.walk_from(t0 as int, 0, guest_paddr) == Some(e.0));
            // nothing that was translated before translates differently now
            assert(GuestPageTable::entries_preserved(s0, fin));
            assert forall|g2: u64| s0.spec_walk(g2) is Some implies fin.spec_walk(g2)
                == s0.spec_walk(g2) by {
                lemma_walk_preserved(s0, fin, g2, 0, 3);
            }
        }
        Ok(())
    }

    /// Walks the tree exactly as the hardware would for `guest_paddr`:
    /// `None` where translation would fault, otherwise the leaf entry.
    pub fn walk(&self, guest_paddr: u64) -> (r: Option<Entry>)
        requires
            self.wf(),
        ensures
            match r {
                Some(e) => self.spec_walk(guest_paddr) == Some(e.0),
                None => self.spec_walk(guest_paddr) is None,
            },
    {
        let mut ti: usize = 0;
        let mut level: u64 = 3;
        while level > 0
            invariant
                self.wf(),
                (ti as int) < self.tables@.len(),
                self.tables@[ti as int].level == level,
                level <= 3,
                self.spec_walk(guest_paddr) == self.walk_from(ti as int, level, guest_paddr),
            decreases level,
        {
            proof {
                assert(pt_index(guest_paddr, level) < 512) by (bit_vector);
            }
            let e = self.tables[ti].entry_by_addr(guest_paddr, level);
            if !e.is_valid() {
                proof {
                    lemma_walk_stops(*self, guest_paddr, ti as int, level);
                }
                return None;
            }
            let child_addr = e.paddr();
            proof {
                assert(self.has_table(child_addr, (level - 1) as u64));
                let j = choose|j: int|
                    0 <= j < self.tables@.len() && self.tables@[j].addr == child_addr
                        && self.tables@[j].level == (level - 1) as u64;
                assert(self.has_addr(child_addr));
            }
            let ci = self.find_table(child_addr);
            proof {
                let j = choose|j: int|
                    0 <= j < self.tables@.len() && self.tables@[j].addr == child_addr
                        && self.tables@[j].level == (level - 1) as u64;
                assert(ci as int == j);
                lemma_walk_step(*self, guest_paddr, ti as int, level, ci as int);
            }
            ti = ci;
            level = level - 1;
        }
        proof {
            assert(pt_index(guest_paddr, 0) < 512) by (bit_vector);
        }
        let e = self.tables[ti].entry_by_addr(guest_paddr, 0);
        if e.is_valid() {
            Some(e)
        } else {
            None
        }
    }
}

/// The leaf entry `map` installs decomposes as the mapping promises: its page
/// number is the host page number, and its permission bits are the given
/// permissions together with Valid and User.
pub proof fn lemma_leaf_pte_fields(h: u64, flags: u64)
    requires
        h % 4096 == 0,
        flags <= 0x3ff,
    ensures
        leaf_pte(h, flags) >> 10 == h >> 12,
        pte_perm_bits(leaf_pte(h, flags)) == flags | 0x11,
        pte_target(leaf_pte(h, flags)) == h,
        pte_valid(leaf_pte(h, flags)),
{
    assert((((h >> 12) << 10) | flags | 0x11) >> 10 == h >> 12 && ((((h >> 12) << 10) | flags
        | 0x11) & 0x3ff) == (flags | 0x11) && (((((h >> 12) << 10) | flags | 0x11) >> 10) << 12)
        == h && ((((h >> 12) << 10) | flags | 0x11) & 1) != 0) by (bit_vector)
        requires
            h % 4096 == 0,
            flags <= 0x3ff,
    ;
}

} // verus!
