//! A page-granular bump allocator over a fixed window of physical memory.
//! Nothing is ever handed back.

use vstd::prelude::*;
use crate::address::{align_up, aligned_up, PAddr, PAGE_SIZE};

verus! {

/// The allocator's window `[start, end)` and its cursor, which is unset
/// until the first allocation and then stands at the first free byte.
#[derive(Debug)]
pub struct BumpAllocator {
    pub start: PAddr,
    pub end: PAddr,
    pub next: Option<PAddr>,
}

impl BumpAllocator {
    /// The first free byte.
    pub open spec fn cursor(&self) -> int {
        match self.next {
            Some(p) => p.0 as int,
            None => self.start.0 as int,
        }
    }

    pub open spec fn wf(&self) -> bool {
        &&& self.start.is_page_aligned()
        &&& self.start.0 as int <= self.cursor() <= self.end.0 as int
        &&& self.cursor() % 0x1000 == 0
    }

    /// Whole pages left between the cursor and the end of the window.
    pub open spec fn free_pages(&self) -> int {
        (self.end.0 as int - self.cursor()) / 0x1000
    }

    /// Whether `size` bytes, rounded up to whole pages, still fit.
    pub open spec fn fits(&self, size: int) -> bool {
        self.cursor() + aligned_up(size, 0x1000) <= self.end.0 as int
    }

    /// An allocator over `[start, end)` that has handed out nothing yet.
    pub fn new(start: PAddr, end: PAddr) -> (r: Self)
        requires
            start.is_page_aligned(),
            start.0 <= end.0,
        ensures
            r.wf(),
            r.start == start,
            r.end == end,
            r.next is None,
            r.cursor() == start.0,
    {
        BumpAllocator { start, end, next: None }
    }

    /// Whole pages left between the cursor and the end of the window.
    pub fn pages_left(&self) -> (r: u32)
        requires
            self.wf(),
        ensures
            r == self.free_pages(),
    {
        let cur: u32 = match self.next {
            Some(p) => p.0,
            None => self.start.0,
        };
        (self.end.0 - cur) / 4096
    }

    /// Tells whether `allocate(size)` may be called.
    pub fn can_alloc(&self, size: usize) -> (r: bool)
        requires
            self.wf(),
        ensures
            r == self.fits(size as int),
    {
        let cur: u32 = match self.next {
            Some(p) => p.0,
            None => self.start.0,
        };
        let room: u32 = self.end.0 - cur;
        if size > room as usize {
            false
        } else {
            let bytes: u64 = size as u64;
            let rem: u64 = bytes % 4096;
            let aligned: u64 = if rem == 0 {
                bytes
            } else {
                bytes - rem + 4096
            };
            aligned <= room as u64
        }
    }

    /// Hands out the bytes from the cursor on, in whole pages, and moves the
    /// cursor past them. Running out of memory is a fatal condition of the
    /// kernel, so the caller makes sure beforehand that the request fits.
    pub fn allocate(&mut self, size: usize) -> (r: PAddr)
        requires
            old(self).wf(),
            size > 0,
            old(self).fits(size as int),
        ensures
            final(self).wf(),
            final(self).start == old(self).start,
            final(self).end == old(self).end,
            r.0 == old(self).cursor(),
            r.is_page_aligned(),
            final(self).cursor() == old(self).cursor() + aligned_up(size as int, 0x1000),
            final(self).next is Some,
    {
        let cur: u32 = match self.next {
            Some(p) => p.0,
            None => self.start.0,
        };
        let aligned: usize = align_up(size, PAGE_SIZE);
        let next: u32 = cur + aligned as u32;
        self.next = Some(PAddr(next));
        PAddr(cur)
    }
}

} // verus!
