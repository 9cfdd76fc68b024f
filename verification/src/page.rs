//! Two-level address translation: page-table entries, the tables of one
//! address space, and the operations that install and look up a mapping.

use vstd::prelude::*;
use crate::address::{PAddr, VAddr, PAGE_SIZE};
use crate::allocator::BumpAllocator;

verus! {

/// Entry is valid.
pub const PAGE_V: u32 = 1;
/// Readable.
pub const PAGE_R: u32 = 2;
/// Writable.
pub const PAGE_W: u32 = 4;
/// Executable.
pub const PAGE_X: u32 = 8;
/// Accessible from user mode.
pub const PAGE_U: u32 = 16;
/// Translation mode bit of the translation-root register.
pub const SATP_SV32: u32 = 0x8000_0000;

/// Whether the entry has its valid bit set.
pub open spec fn pte_valid(pte: u32) -> bool {
    pte & 1u32 != 0u32
}

/// Whether the entry maps a page rather than naming a further table.
pub open spec fn pte_leaf(pte: u32) -> bool {
    pte & 14u32 != 0u32
}

/// The entry for the page at `pa` with `flags` and the valid bit.
pub open spec fn leaf_pte(pa: PAddr, flags: u32) -> u32 {
    ((pa.0 >> 12u32) << 10u32) | flags | 1u32
}

/// The entry that names the table at `pa`: valid, with no permission bit.
pub open spec fn table_pte(pa: PAddr) -> u32 {
    ((pa.0 >> 12u32) << 10u32) | 1u32
}

/// The value of the translation-root register for a root table at `root`.
pub open spec fn spec_satp(root: PAddr) -> u32 {
    0x8000_0000u32 | (root.0 >> 12u32)
}

pub fn satp_for(root: PAddr) -> (r: u32)
    ensures
        r == spec_satp(root),
{
    SATP_SV32 | (root.0 >> 12)
}

/// Root indices spanned by the `count` pages from page number `first` on.
pub open spec fn range_tables(first: int, count: int) -> Set<int> {
    Set::new(|v: int| count > 0 && first / 1024 <= v <= (first + count - 1) / 1024)
}

/// How many of the root indices in `[lo, hi)` are not in `present`.
pub open spec fn missing_in(present: Set<int>, lo: int, hi: int) -> nat
    decreases hi - lo,
{
    if lo >= hi {
        0
    } else {
        missing_in(present, lo, hi - 1) + if present.contains(hi - 1) {
            0nat
        } else {
            1nat
        }
    }
}

/// How many second-level tables must be made to map the `count` pages from
/// page number `first` on, when the root indices in `present` have one.
pub open spec fn tables_needed(present: Set<int>, first: int, count: int) -> nat {
    if count <= 0 {
        0
    } else {
        missing_in(present, first / 1024, (first + count - 1) / 1024 + 1)
    }
}

/// The mappings after the `count` pages from virtual page `va_page` on have
/// been mapped, in order, to the physical pages from `pa_page` on.
pub open spec fn with_range(
    before: Map<int, u32>,
    va_page: int,
    pa_page: int,
    count: int,
    flags: u32,
) -> Map<int, u32> {
    Map::new(
        |vpn: int| before.dom().contains(vpn) || va_page <= vpn < va_page + count,
        |vpn: int|
            if va_page <= vpn < va_page + count {
                leaf_pte(PAddr(((pa_page + vpn - va_page) * 0x1000) as u32), flags)
            } else {
                before[vpn]
            },
    )
}

pub proof fn lemma_missing_in_grows(present: Set<int>, lo: int, hi: int, hi2: int)
    requires
        hi <= hi2,
    ensures
        missing_in(present, lo, hi) <= missing_in(present, lo, hi2),
    decreases hi2 - hi,
{
    if hi < hi2 {
        lemma_missing_in_grows(present, lo, hi, hi2 - 1);
    }
}

/// Mapping more pages never needs fewer tables.
pub proof fn lemma_tables_needed_grows(present: Set<int>, first: int, count: int, count2: int)
    requires
        first >= 0,
        count <= count2,
    ensures
        tables_needed(present, first, count) <= tables_needed(present, first, count2),
{
    if count > 0 {
        lemma_missing_in_grows(
            present,
            first / 1024,
            (first + count - 1) / 1024 + 1,
            (first + count2 - 1) / 1024 + 1,
        );
    }
}

pub proof fn lemma_page_split(va: VAddr)
    ensures
        0 <= va.spec_page() < 0x10_0000,
        va.spec_page() / 1024 == va.spec_vpn1(),
        va.spec_page() % 1024 == va.spec_vpn0(),
        0 <= va.spec_vpn1() < 1024,
        0 <= va.spec_vpn0() < 1024,
{
    let a: u32 = va.0;
    assert(a / 0x1000 < 0x10_0000 && (a / 0x1000) / 1024 == a / 0x40_0000 && a / 0x40_0000 < 1024
        && (a / 0x1000) % 0x400 < 1024) by (bit_vector);
}

/// One page of 1024 entries.
#[derive(Debug)]
pub struct PageTable {
    pub entries: [u32; 1024],
}

impl PageTable {
    /// A table with no valid entry.
    pub fn new() -> (r: Self)
        ensures
            forall|i: int| 0 <= i < 1024 ==> r.entries[i] == 0,
    {
        PageTable { entries: [0u32; 1024] }
    }
}

/// The tables of one address space: the root, where it lives, and the
/// second-level tables it owns, each under the root index that names it.
#[derive(Debug)]
pub struct AddressSpace {
    pub root_addr: PAddr,
    pub root: PageTable,
    pub tables: Vec<Option<PageTable>>,
}

impl AddressSpace {
    /// Whether root index `i` has a second-level table.
    pub open spec fn has_table(&self, i: int) -> bool {
        0 <= i < 1024 && self.tables[i] is Some
    }

    /// The root indices that have a second-level table.
    pub open spec fn table_set(&self) -> Set<int> {
        Set::new(|i: int| self.has_table(i))
    }

    /// Every valid root entry names a table and is no leaf, and the tables
    /// held are exactly those of the valid root entries.
    pub open spec fn wf(&self) -> bool {
        &&& self.root_addr.is_page_aligned()
        &&& self.tables.len() == 1024
        &&& forall|i: int|
            0 <= i < 1024 ==> (pte_valid(#[trigger] self.root.entries[i]) <==> self.tables[i] is Some)
        &&& forall|i: int|
            0 <= i < 1024 && pte_valid(#[trigger] self.root.entries[i]) ==> !pte_leaf(
                self.root.entries[i],
            )
    }

    /// The second-level entry for virtual page `vpn`, zero where the root
    /// has no table for it.
    pub open spec fn pte_at(&self, vpn: int) -> u32 {
        match self.tables[vpn / 1024] {
            Some(t) => t.entries[vpn % 1024],
            None => 0u32,
        }
    }

    /// The mappings in force: from the number of each mapped virtual page to
    /// its leaf entry.
    pub open spec fn view(&self) -> Map<int, u32> {
        Map::new(
            |vpn: int| 0 <= vpn < 0x10_0000 && pte_valid(self.pte_at(vpn)),
            |vpn: int| self.pte_at(vpn),
        )
    }

    /// What a walk for `va` finds: the page's physical address and the low
    /// eight bits of its entry, or nothing where the page is not mapped.
    pub open spec fn spec_translate(&self, va: VAddr) -> Option<(PAddr, u32)> {
        if self@.dom().contains(va.spec_page()) {
            let pte = self@[va.spec_page()];
            Some((PAddr(PAddr::spec_from_ppn(pte) as u32), pte & 0xffu32))
        } else {
            None
        }
    }

    /// Whether virtual page `vpn` maps to the page at the same physical
    /// address with exactly the permission bits `flags` and the valid bit.
    pub open spec fn identity_mapped(&self, vpn: int, flags: u32) -> bool {
        self@.dom().contains(vpn) && self@[vpn] == leaf_pte(PAddr((vpn * 0x1000) as u32), flags)
    }

    /// An empty address space whose root table takes one page from `alloc`.
    pub fn new(alloc: &mut BumpAllocator) -> (r: Self)
        requires
            old(alloc).wf(),
            old(alloc).fits(0x1000),
        ensures
            r.wf(),
            r@ == Map::<int, u32>::empty(),
            r.table_set() == Set::<int>::empty(),
            forall|i: int| 0 <= i < 1024 ==> r.root.entries[i] == 0,
            r.root_addr.0 == old(alloc).cursor(),
            final(alloc).wf(),
            final(alloc).start == old(alloc).start,
            final(alloc).end == old(alloc).end,
            final(alloc).cursor() == old(alloc).cursor() + 0x1000,
    {
        let root_addr = alloc.allocate(PAGE_SIZE);
        let mut tables: Vec<Option<PageTable>> = Vec::new();
        let mut i: usize = 0;
        while i < 1024
            invariant
                i <= 1024,
                tables.len() == i,
                forall|j: int| 0 <= j < i ==> tables[j] is None,
            decreases 1024 - i,
        {
            tables.push(None);
            i = i + 1;
        }
        let r = AddressSpace { root_addr, root: PageTable::new(), tables };
        proof {
            assert(!pte_valid(0u32)) by (bit_vector);
            assert(r@ =~= Map::<int, u32>::empty());
            assert(r.table_set() =~= Set::<int>::empty());
        }
        r
    }
}

/// Maps the page at `va` to the page at `pa` with permission bits `flags`,
/// making the second-level table first where the root has none for `va`.
pub fn map_page(
    space: &mut AddressSpace,
    alloc: &mut BumpAllocator,
    va: VAddr,
    pa: PAddr,
    flags: u32,
)
    requires
        old(space).wf(),
        old(alloc).wf(),
        va.is_page_aligned(),
        pa.is_page_aligned(),
        flags <= 0xff,
        old(space).has_table(va.spec_vpn1()) || old(alloc).fits(0x1000),
    ensures
        final(space).wf(),
        final(space).root_addr == old(space).root_addr,
        final(space)@ == old(space)@.insert(va.spec_page(), leaf_pte(pa, flags)),
        final(space).spec_translate(va) == Some((pa, flags | 1u32)),
        final(space).table_set() == old(space).table_set().insert(va.spec_vpn1()),
        final(space).root.entries[va.spec_vpn1()] == if old(space).has_table(va.spec_vpn1()) {
            old(space).root.entries[va.spec_vpn1()]
        } else {
            table_pte(PAddr(old(alloc).cursor() as u32))
        },
        forall|i: int|
            0 <= i < 1024 && i != va.spec_vpn1() ==> final(space).root.entries[i] == old(
                space,
            ).root.entries[i],
        final(alloc).wf(),
        final(alloc).start == old(alloc).start,
        final(alloc).end == old(alloc).end,
        final(alloc).cursor() == old(alloc).cursor() + if old(space).has_table(va.spec_vpn1()) {
            0int
        } else {
            0x1000int
        },
{
    let vpn1: usize = va.vpn1();
    let vpn0: usize = va.vpn0();
    proof {
        lemma_page_split(va);
    }
    if space.root.entries[vpn1] & PAGE_V == 0 {
        let table_addr: PAddr = alloc.allocate(PAGE_SIZE);
        let t: u32 = table_addr.0;
        let entry: u32 = ((t >> 12) << 10) | PAGE_V;
        assert(entry & 1u32 != 0u32 && entry & 14u32 == 0u32) by (bit_vector)
            requires
                entry == ((t >> 12u32) << 10u32) | 1u32,
        ;
        assert(!pte_valid(0u32)) by (bit_vector);
        space.tables[vpn1] = Some(PageTable::new());
        space.root.entries[vpn1] = entry;
        assert(space@ =~= old(space)@);
    }
    let p: u32 = pa.0;
    let leaf: u32 = ((p >> 12) << 10) | flags | PAGE_V;
    assert(leaf & 1u32 != 0u32 && leaf & 0xffu32 == flags | 1u32 && (((leaf as int / 0x400)
        * 0x1000) % 0x1_0000_0000) as u32 == p) by (bit_vector)
        requires
            leaf == ((p >> 12u32) << 10u32) | flags | 1u32,
            flags <= 0xffu32,
            p % 0x1000u32 == 0u32,
    ;
    let ghost mid = *space;
    match &mut space.tables[vpn1] {
        Some(t) => {
            t.entries[vpn0] = leaf;
        },
        None => {},
    }
    proof {
        assert(space.tables[vpn1 as int] is Some);
        assert(space.pte_at(va.spec_page()) == leaf);
        assert forall|vpn: int| 0 <= vpn < 0x10_0000 && vpn != va.spec_page() implies space.pte_at(
            vpn,
        ) == mid.pte_at(vpn) by {
            if vpn / 1024 == vpn1 as int {
                assert(vpn % 1024 != vpn0 as int);
            }
        }
        assert(space@ =~= old(space)@.insert(va.spec_page(), leaf_pte(pa, flags)));
        assert(space.table_set() =~= old(space).table_set().insert(va.spec_vpn1()));
    }
}

/// Looks `vaddr` up through both levels.
pub fn walk_page_table(space: &AddressSpace, vaddr: VAddr) -> (r: Option<(PAddr, u32)>)
    requires
        space.wf(),
    ensures
        r == space.spec_translate(vaddr),
{
    let vpn1: usize = vaddr.vpn1();
    let vpn0: usize = vaddr.vpn0();
    proof {
        lemma_page_split(vaddr);
        assert(!pte_valid(0u32)) by (bit_vector);
    }
    if space.root.entries[vpn1] & PAGE_V == 0 {
        return None;
    }
    match &space.tables[vpn1] {
        Some(t) => {
            let pte0: u32 = t.entries[vpn0];
            if pte0 & PAGE_V == 0 {
                None
            } else {
                Some((PAddr::from_ppn(pte0), pte0 & 0xff))
            }
        },
        None => None,
    }
}

/// Root entry `v` after the `count` pages from page number `first` on have
/// been mapped in `before` with the allocator's cursor at `cursor`: the
/// tables that were missing lie one page after the other from the cursor
/// on, in the order of their root indices.
pub open spec fn range_root_entry(
    before: AddressSpace,
    cursor: int,
    first: int,
    count: int,
    v: int,
) -> u32 {
    if range_tables(first, count).contains(v) && !before.has_table(v) {
        table_pte(
            PAddr((cursor + 0x1000 * missing_in(before.table_set(), first / 1024, v)) as u32),
        )
    } else {
        before.root.entries[v]
    }
}

/// Maps `count` pages in a row: virtual page `va_page + k` to physical page
/// `pa_page + k`, for each `k` below `count`, all with `flags`.
pub fn map_range(
    space: &mut AddressSpace,
    alloc: &mut BumpAllocator,
    va_page: u32,
    pa_page: u32,
    count: u32,
    flags: u32,
)
    requires
        old(space).wf(),
        old(alloc).wf(),
        va_page + count <= 0x10_0000,
        pa_page + count <= 0x10_0000,
        flags <= 0xff,
        old(alloc).free_pages() >= tables_needed(
            old(space).table_set(),
            va_page as int,
            count as int,
        ),
    ensures
        final(space).wf(),
        final(space).root_addr == old(space).root_addr,
        final(space)@ == with_range(
            old(space)@,
            va_page as int,
            pa_page as int,
            count as int,
            flags,
        ),
        final(space).table_set() == old(space).table_set().union(
            range_tables(va_page as int, count as int),
        ),
        forall|v: int|
            0 <= v < 1024 ==> final(space).root.entries[v] == range_root_entry(
                *old(space),
                old(alloc).cursor(),
                va_page as int,
                count as int,
                v,
            ),
        final(alloc).wf(),
        final(alloc).start == old(alloc).start,
        final(alloc).end == old(alloc).end,
        final(alloc).cursor() == old(alloc).cursor() + 0x1000 * tables_needed(
            old(space).table_set(),
            va_page as int,
            count as int,
        ),
{
    let ghost present = space.table_set();
    let ghost before = space@;
    let ghost cursor0 = alloc.cursor();
    let mut k: u32 = 0;
    proof {
        assert(space@ =~= with_range(before, va_page as int, pa_page as int, 0, flags));
        assert(space.table_set() =~= present.union(range_tables(va_page as int, 0)));
    }
    while k < count
        invariant
            k <= count,
            va_page + count <= 0x10_0000,
            pa_page + count <= 0x10_0000,
            flags <= 0xff,
            space.wf(),
            alloc.wf(),
            space.root_addr == old(space).root_addr,
            alloc.start == old(alloc).start,
            alloc.end == old(alloc).end,
            space@ == with_range(before, va_page as int, pa_page as int, k as int, flags),
            space.table_set() == present.union(range_tables(va_page as int, k as int)),
            present == old(space).table_set(),
            cursor0 == old(alloc).cursor(),
            forall|v: int|
                0 <= v < 1024 ==> space.root.entries[v] == range_root_entry(
                    *old(space),
                    cursor0,
                    va_page as int,
                    k as int,
                    v,
                ),
            alloc.cursor() == cursor0 + 0x1000 * tables_needed(present, va_page as int, k as int),
            (alloc.end.0 - cursor0) / 0x1000 >= tables_needed(
                present,
                va_page as int,
                count as int,
            ),
        decreases count - k,
    {
        let va: VAddr = VAddr((va_page + k) << 12);
        let pa: PAddr = PAddr((pa_page + k) << 12);
        let vp: u32 = va_page + k;
        let pp: u32 = pa_page + k;
        assert((vp << 12u32) == vp * 0x1000u32 && (vp << 12u32) % 0x1000u32 == 0u32 && (vp << 12u32)
            / 0x1000u32 == vp && (vp << 12u32) / 0x40_0000u32 == vp / 1024u32) by (bit_vector)
            requires
                vp < 0x10_0000u32,
        ;
        assert((pp << 12u32) == pp * 0x1000u32 && (pp << 12u32) % 0x1000u32 == 0u32)
            by (bit_vector)
            requires
                pp < 0x10_0000u32,
        ;
        proof {
            let first = va_page as int;
            let v = vp as int / 1024;
            assert(va.spec_vpn1() == v);
            lemma_tables_needed_grows(present, first, k as int + 1, count as int);
            if k > 0 {
                let q = (vp as int - 1) / 1024;
                assert(v == q || v == q + 1);
                if v == q {
                    assert(range_tables(first, k as int).contains(v));
                    assert(space.table_set().contains(v));
                } else {
                    assert(!range_tables(first, k as int).contains(v));
                    assert(space.table_set().contains(v) == present.contains(v));
                }
            } else {
                assert(!range_tables(first, 0).contains(v));
                assert(space.table_set().contains(v) == present.contains(v));
                assert(missing_in(present, v, v) == 0);
            }
            assert(space.has_table(v) == space.table_set().contains(v));
        }
        let ghost mid = *space;
        map_page(space, alloc, va, pa, flags);
        proof {
            let first = va_page as int;
            let v = vp as int / 1024;
            assert forall|u: int| 0 <= u < 1024 implies space.root.entries[u] == range_root_entry(
                *old(space),
                cursor0,
                first,
                k as int + 1,
                u,
            ) by {
                assert(mid.root.entries[u] == range_root_entry(
                    *old(space),
                    cursor0,
                    first,
                    k as int,
                    u,
                ));
                assert(old(space).has_table(u) == present.contains(u));
                if u != v {
                    assert(range_tables(first, k as int + 1).contains(u) == range_tables(
                        first,
                        k as int,
                    ).contains(u));
                }
            }
            assert(space@ =~= with_range(
                before,
                va_page as int,
                pa_page as int,
                k as int + 1,
                flags,
            ));
            assert(space.table_set() =~= present.union(
                range_tables(va_page as int, k as int + 1),
            ));
        }
        k = k + 1;
    }
}

} // verus!
