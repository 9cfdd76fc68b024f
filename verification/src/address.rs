//! Address arithmetic for a 32-bit machine with 4 KiB pages and two-level
//! translation: physical and virtual addresses as distinct types, and the
//! fields a virtual address splits into.

use vstd::prelude::*;

verus! {

/// Bytes in one page.
pub const PAGE_SIZE: usize = 4096;

/// The least multiple of `align` that is not below `value`.
pub open spec fn aligned_up(value: int, align: int) -> int {
    if value % align == 0 {
        value
    } else {
        value - value % align + align
    }
}

/// Rounds `value` up to the next multiple of `align`.
pub fn align_up(value: usize, align: usize) -> (r: usize)
    requires
        align > 0,
        aligned_up(value as int, align as int) <= usize::MAX,
    ensures
        r == aligned_up(value as int, align as int),
        r % align == 0,
        value <= r < value + align,
{
    let rem: usize = value % align;
    if rem == 0 {
        value
    } else {
        assert(rem <= value) by (nonlinear_arith)
            requires
                align > 0,
                rem as int == value as int % align as int,
        ;
        let below: usize = value - rem;
        assert(below as int % align as int == 0) by (nonlinear_arith)
            requires
                align > 0,
                rem as int == value as int % align as int,
                below as int == value as int - rem as int,
        ;
        assert((below as int + align as int) % align as int == 0) by (nonlinear_arith)
            requires
                align > 0,
                below as int % align as int == 0,
        ;
        below + align
    }
}

/// A virtual address.
#[derive(Clone, Copy, Debug, PartialEq, Eq, Structural)]
pub struct VAddr(pub u32);

/// A physical address.
#[derive(Clone, Copy, Debug, PartialEq, Eq, Structural)]
pub struct PAddr(pub u32);

impl VAddr {
    pub fn new(addr: u32) -> (r: Self)
        ensures
            r.0 == addr,
    {
        VAddr(addr)
    }

    pub fn as_u32(&self) -> (r: u32)
        ensures
            r == self.0,
    {
        self.0
    }

    /// Index into the root table: bits 31 to 22.
    pub open spec fn spec_vpn1(self) -> int {
        self.0 as int / 0x40_0000
    }

    /// Index into the second-level table: bits 21 to 12.
    pub open spec fn spec_vpn0(self) -> int {
        (self.0 as int / 0x1000) % 0x400
    }

    /// Offset within the page: bits 11 to 0.
    pub open spec fn spec_offset(self) -> int {
        self.0 as int % 0x1000
    }

    /// Number of the page that holds the address: bits 31 to 12.
    pub open spec fn spec_page(self) -> int {
        self.0 as int / 0x1000
    }

    pub open spec fn is_page_aligned(self) -> bool {
        self.0 as int % 0x1000 == 0
    }

    pub fn vpn1(&self) -> (r: usize)
        ensures
            r == self.spec_vpn1(),
            r < 1024,
    {
        let a: u32 = self.0;
        assert((a >> 22) & 0x3ff == a / 0x40_0000 && a / 0x40_0000 < 1024) by (bit_vector);
        ((a >> 22) & 0x3ff) as usize
    }

    pub fn vpn0(&self) -> (r: usize)
        ensures
            r == self.spec_vpn0(),
            r < 1024,
    {
        let a: u32 = self.0;
        assert((a >> 12) & 0x3ff == (a / 0x1000) % 0x400 && (a / 0x1000) % 0x400 < 1024)
            by (bit_vector);
        ((a >> 12) & 0x3ff) as usize
    }

    pub fn offset(&self) -> (r: usize)
        ensures
            r == self.spec_offset(),
            r < 4096,
    {
        let a: u32 = self.0;
        assert(a & 0xfff == a % 0x1000 && a % 0x1000 < 4096) by (bit_vector);
        (a & 0xfff) as usize
    }

    pub fn page(&self) -> (r: u32)
        ensures
            r == self.spec_page(),
            r < 0x10_0000,
            r as int / 1024 == self.spec_vpn1(),
            r as int % 1024 == self.spec_vpn0(),
    {
        let a: u32 = self.0;
        assert(a >> 12 == a / 0x1000 && a / 0x1000 < 0x10_0000 && (a / 0x1000) / 1024 == a
            / 0x40_0000) by (bit_vector);
        a >> 12
    }
}

impl PAddr {
    pub fn new(addr: u32) -> (r: Self)
        ensures
            r.0 == addr,
    {
        PAddr(addr)
    }

    pub fn as_u32(&self) -> (r: u32)
        ensures
            r == self.0,
    {
        self.0
    }

    pub open spec fn is_page_aligned(self) -> bool {
        self.0 as int % 0x1000 == 0
    }

    /// The address named by the page-number field of a table entry: the
    /// entry without its ten flag bits, times the page size, cut to a word.
    pub open spec fn spec_from_ppn(pte: u32) -> int {
        ((pte as int / 0x400) * 0x1000) % 0x1_0000_0000
    }

    pub fn from_ppn(pte: u32) -> (r: Self)
        ensures
            r.0 == Self::spec_from_ppn(pte),
            r.is_page_aligned(),
    {
        assert(((pte >> 10) << 12) == ((pte as int / 0x400) * 0x1000) % 0x1_0000_0000 && ((pte >> 10)
            << 12) % 0x1000 == 0) by (bit_vector);
        PAddr((pte >> 10) << 12)
    }
}

} // verus!
