//! Process control blocks, the fixed table that holds them, and the
//! creation of a process: its address space and the image from which it
//! first runs.

use vstd::prelude::*;
use crate::address::{align_up, aligned_up, PAddr, VAddr, PAGE_SIZE};
use crate::allocator::BumpAllocator;
use crate::context::{resumes, Cpu, KernelStack, ParkedImage, IMAGE_BYTES, SSTATUS_SUM};
use crate::page::{
    map_range, missing_in, range_tables, satp_for, spec_satp, table_pte, tables_needed,
    with_range,
    AddressSpace, PAGE_R, PAGE_U, PAGE_W, PAGE_X,
};

verus! {

/// Number of slots in the process table.
pub const PROCS_MAX: usize = 8;
/// The pid of the idle process.
pub const IDLE_PID: usize = 0;
/// Virtual address at which a user image starts.
pub const USER_BASE: u32 = 0x0100_0000;
/// Longest user image that still ends inside the virtual address space.
pub const IMAGE_MAX: usize = 0xff00_0000;

#[derive(Copy, Clone, Debug, PartialEq, Eq, Structural)]
pub enum State {
    /// The slot holds no process.
    Unused,
    /// The process can run.
    Runnable,
    /// The process has ended; its slot is not given out again.
    Exited,
}

/// Where the kernel and the block device lie in physical memory.
#[derive(Copy, Clone, Debug)]
pub struct MemoryLayout {
    /// First byte of the kernel.
    pub kernel_base: PAddr,
    /// End of the memory the kernel may use.
    pub free_ram_end: PAddr,
    /// The page of the block device's registers.
    pub virtio_blk: PAddr,
}

impl MemoryLayout {
    /// Number of the kernel's first page.
    pub open spec fn kernel_page(&self) -> int {
        self.kernel_base.0 as int / 0x1000
    }

    /// Pages from the kernel's first to the one that holds the last byte
    /// before `free_ram_end`.
    pub open spec fn kernel_pages(&self) -> int {
        (self.free_ram_end.0 as int - self.kernel_base.0 as int + 0xfff) / 0x1000
    }

    /// Number of the block device's page.
    pub open spec fn virtio_page(&self) -> int {
        self.virtio_blk.0 as int / 0x1000
    }

    /// The kernel starts on a page boundary and ends where it starts or
    /// later, and the device's registers start on a page boundary.
    pub open spec fn wf(&self) -> bool {
        &&& self.kernel_base.is_page_aligned()
        &&& self.kernel_base.0 <= self.free_ram_end.0
        &&& self.virtio_blk.is_page_aligned()
    }

    /// Whether the kernel, the device's page and a user image of
    /// `image_len` bytes at the user base keep clear of each other, so that
    /// no mapping of one replaces a mapping of another.
    pub open spec fn image_clear(&self, image_len: int) -> bool {
        &&& !(self.kernel_page() <= self.virtio_page() < self.kernel_page() + self.kernel_pages())
        &&& !(0x1000 <= self.virtio_page() < 0x1000 + user_pages(image_len))
        &&& (user_pages(image_len) == 0 || self.kernel_pages() == 0 || self.kernel_page()
            + self.kernel_pages() <= 0x1000 || 0x1000 + user_pages(image_len)
            <= self.kernel_page())
    }
}

/// Pages that hold a user image of `image_len` bytes.
pub open spec fn user_pages(image_len: int) -> int {
    aligned_up(image_len, 0x1000) / 0x1000
}

/// Pages that creating a process takes from the allocator: the root table,
/// a second-level table for every root index that the kernel, the device
/// and the image touch for the first time, and the image's own pages.
pub open spec fn process_pages(layout: MemoryLayout, image_len: int) -> int {
    let k = range_tables(layout.kernel_page(), layout.kernel_pages());
    let v = k.union(range_tables(layout.virtio_page(), 1));
    1 + tables_needed(Set::empty(), layout.kernel_page(), layout.kernel_pages()) + tables_needed(
        k,
        layout.virtio_page(),
        1,
    ) + if image_len > 0 {
        user_pages(image_len) + tables_needed(v, 0x1000, user_pages(image_len))
    } else {
        0
    }
}

/// The mappings every process has: the kernel onto itself, readable,
/// writable and executable, and the device's page onto itself, readable and
/// writable.
pub open spec fn kernel_mappings(layout: MemoryLayout) -> Map<int, u32> {
    with_range(
        with_range(
            Map::empty(),
            layout.kernel_page(),
            layout.kernel_page(),
            layout.kernel_pages(),
            14u32,
        ),
        layout.virtio_page(),
        layout.virtio_page(),
        1,
        6u32,
    )
}

/// The mappings of a process whose image of `image_len` bytes lies at
/// `image_addr`: those of the kernel, and over them the image at the user
/// base, open to user mode.
pub open spec fn process_mappings(layout: MemoryLayout, image_addr: PAddr, image_len: int) -> Map<
    int,
    u32,
> {
    if image_len > 0 {
        with_range(
            kernel_mappings(layout),
            0x1000,
            image_addr.0 as int / 0x1000,
            user_pages(image_len),
            30u32,
        )
    } else {
        kernel_mappings(layout)
    }
}

/// Root entry `v` of the address space of a process made with the
/// allocator's cursor at `cursor`. The root table takes the first page;
/// then come the tables for the kernel, in the order of their root indices,
/// the table for the device unless the kernel's tables cover it, the
/// image's pages, and the tables for the image that are still missing.
pub open spec fn process_root_entry(
    layout: MemoryLayout,
    cursor: int,
    image_len: int,
    v: int,
) -> u32 {
    let kset = range_tables(layout.kernel_page(), layout.kernel_pages());
    let vset = kset.union(range_tables(layout.virtio_page(), 1));
    let for_kernel = cursor + 0x1000;
    let for_device = for_kernel + 0x1000 * tables_needed(
        Set::empty(),
        layout.kernel_page(),
        layout.kernel_pages(),
    );
    let for_image = for_device + 0x1000 * tables_needed(kset, layout.virtio_page(), 1) + 0x1000
        * user_pages(image_len);
    if kset.contains(v) {
        table_pte(
            PAddr(
                (for_kernel + 0x1000 * missing_in(Set::empty(), layout.kernel_page() / 1024, v)) as u32,
            ),
        )
    } else if v == layout.virtio_page() / 1024 {
        table_pte(PAddr(for_device as u32))
    } else if image_len > 0 && range_tables(0x1000, user_pages(image_len)).contains(v) {
        table_pte(PAddr((for_image + 0x1000 * missing_in(vset, 4, v)) as u32))
    } else {
        0
    }
}

/// The image from which a new process first runs.
pub open spec fn first_image(
    entry: u32,
    is_kernel: bool,
    stack_top: u32,
    sstatus: u32,
    root: PAddr,
) -> Seq<u32> {
    seq![entry].add(Seq::new(12, |j: int| 0u32)).add(
        seq![
            if is_kernel { 0u32 } else { stack_top },
            if is_kernel { 0u32 } else { 0x0100_0000u32 },
            if is_kernel { sstatus } else { sstatus | 0x4_0000u32 },
            spec_satp(root),
        ],
    )
}

/// A process control block.
#[derive(Debug)]
pub struct Process {
    pub pid: usize,
    pub state: State,
    pub is_kernel: bool,
    /// Where the process is parked while it does not run.
    pub sp: VAddr,
    pub page_table: Option<AddressSpace>,
    pub stack: KernelStack,
    /// Where the storage of the user image lies.
    pub image_addr: PAddr,
    /// The storage of the user image: the image, filled up with zeros to
    /// whole pages.
    pub image: Vec<u8>,
}

impl Process {
    /// An unused slot whose stack lies at `stack_base`.
    pub fn empty(stack_base: VAddr) -> (r: Self)
        ensures
            r.pid == 0,
            r.state == State::Unused,
            !r.is_kernel,
            r.sp.0 == 0,
            r.page_table is None,
            r.stack.base == stack_base,
            forall|i: int| 0 <= i < 2048 ==> r.stack.words[i] == 0,
            r.image_addr.0 == 0,
            r.image@.len() == 0,
            r.is_empty_at(stack_base.0 as int),
    {
        Process {
            pid: 0,
            state: State::Unused,
            is_kernel: false,
            sp: VAddr::new(0),
            page_table: None,
            stack: KernelStack::new(stack_base),
            image_addr: PAddr::new(0),
            image: Vec::new(),
        }
    }

    /// Whether the slot is unused and as `empty` makes it, with its stack
    /// at `stack_base`.
    pub open spec fn is_empty_at(&self, stack_base: int) -> bool {
        &&& self.pid == 0
        &&& self.state == State::Unused
        &&& !self.is_kernel
        &&& self.sp.0 == 0
        &&& self.page_table is None
        &&& self.stack.base.0 == stack_base
        &&& forall|i: int| 0 <= i < 2048 ==> self.stack.words[i] == 0
        &&& self.image_addr.0 == 0
        &&& self.image@.len() == 0
    }

    /// What holds of every slot that is in use, at index `i` of the table:
    /// it has an address space, its pid is the index plus one unless it is
    /// the idle process, and it is parked inside its own stack.
    pub open spec fn live_wf(&self, i: int) -> bool {
        &&& self.page_table is Some
        &&& self.page_table->0.wf()
        &&& (self.pid == i + 1 || self.pid == 0)
        &&& self.stack.holds(self.sp.0, 17)
    }

    /// Whether the scheduler may pick the process: it can run and is not
    /// the idle process.
    pub open spec fn schedulable(&self) -> bool {
        self.state == State::Runnable && self.pid != 0
    }
}

/// The process table.
#[derive(Debug)]
pub struct Procs {
    pub slots: Vec<Process>,
}

impl Procs {
    /// What holds of slot `i` by itself: its stack is in order, and it is
    /// either in use and as such well formed, or unused with pid 0.
    pub open spec fn slot_wf(&self, i: int) -> bool {
        &&& self.slots[i].stack.wf()
        &&& self.slots[i].state != State::Unused ==> self.slots[i].live_wf(i)
        &&& self.slots[i].state == State::Unused ==> self.slots[i].pid == 0
    }

    /// The table has its eight slots, each in order; at most one slot in
    /// use has pid 0; and the slots in use come before the unused ones.
    pub open spec fn wf(&self) -> bool {
        &&& self.slots.len() == 8
        &&& forall|i: int| 0 <= i < 8 ==> #[trigger] self.slot_wf(i)
        &&& forall|i: int, j: int|
            #[trigger] self.in_use(i) && #[trigger] self.in_use(j) && self.slots[i].pid == 0
                && self.slots[j].pid == 0 ==> i == j
        &&& forall|i: int| 0 < i < 8 && #[trigger] self.in_use(i) ==> self.in_use(i - 1)
    }

    /// Whether the idle process is there and can run.
    pub open spec fn idle_ready(&self) -> bool {
        exists|i: int|
            #[trigger] self.in_use(i) && self.slots[i].pid == 0 && self.slots[i].state
                == State::Runnable
    }

    /// Whether the image in which the process of slot `i` is parked holds
    /// zero or the top of the slot's stack as its scratch register.
    pub open spec fn parked_scratch_ok(&self, i: int) -> bool {
        let w = self.slots[i].stack.image_at(self.slots[i].sp.0);
        w[13] == 0 || w[13] == self.slots[i].stack.top()
    }

    /// Whether every process but the one in slot `running`, which is not
    /// parked, is parked with a scratch register that keeps the kernel's
    /// discipline.
    pub open spec fn scratch_discipline(&self, running: Option<int>) -> bool {
        forall|i: int|
            #[trigger] self.in_use(i) && running != Some(i) ==> self.parked_scratch_ok(i)
    }

    /// Whether slot `i` holds a process.
    pub open spec fn in_use(&self, i: int) -> bool {
        0 <= i < self.slots.len() && self.slots[i].state != State::Unused
    }

    /// Index of the first slot with pid `pid`, if there is one.
    pub open spec fn index_of(&self, pid: usize) -> Option<int> {
        if exists|i: int| 0 <= i < self.slots.len() && self.slots[i].pid == pid {
            Some(
                choose|i: int|
                    0 <= i < self.slots.len() && self.slots[i].pid == pid && forall|j: int|
                        0 <= j < i ==> self.slots[j].pid != pid,
            )
        } else {
            None
        }
    }

    /// Index of the first unused slot, if there is one.
    pub open spec fn free_slot(&self) -> Option<int> {
        if exists|i: int| 0 <= i < self.slots.len() && self.slots[i].state == State::Unused {
            Some(
                choose|i: int|
                    0 <= i < self.slots.len() && self.slots[i].state == State::Unused && forall|
                        j: int,
                    |
                        0 <= j < i ==> self.slots[j].state != State::Unused,
            )
        } else {
            None
        }
    }

    /// The first slot the scheduler may pick among those at `start + j`,
    /// `start + j + 1`, and so on up to `start + 7`, counted round the table.
    pub open spec fn scan(&self, start: int, j: int) -> Option<int>
        decreases 8 - j,
    {
        if j >= 8 {
            None
        } else if self.slots[(start + j) % 8].schedulable() {
            Some((start + j) % 8)
        } else {
            self.scan(start, j + 1)
        }
    }

    /// The pid that runs after the process in slot `current`: that of the
    /// first slot after it, round the table and ending with itself, that
    /// the scheduler may pick, or the idle pid where there is none.
    pub open spec fn next_after(&self, current: int) -> usize {
        match self.scan(current + 1, 0) {
            Some(w) => self.slots[w].pid,
            None => 0,
        }
    }

    /// The slots in use come first.
    pub proof fn lemma_in_use_prefix(&self, i: int, j: int)
        requires
            self.wf(),
            0 <= i <= j,
            self.in_use(j),
        ensures
            self.in_use(i),
        decreases j - i,
    {
        if i < j {
            assert(self.in_use(j - 1));
            self.lemma_in_use_prefix(i, j - 1);
        }
    }

    /// In a well-formed table the slot that is found for the pid of a
    /// process is the slot of that process.
    pub proof fn lemma_index_of_live(&self, i: int)
        requires
            self.wf(),
            self.in_use(i),
        ensures
            self.index_of(self.slots[i].pid) == Some(i),
    {
        let pid = self.slots[i].pid;
        let c = self.index_of(pid)->0;
        assert(0 <= c <= i);
        if c < i {
            self.lemma_in_use_prefix(c, i);
            assert(self.slot_wf(c));
            assert(self.slot_wf(i));
        }
    }

    /// What a scan finds is a slot that the scheduler may pick.
    pub proof fn lemma_scan_finds(&self, start: int, j: int)
        requires
            self.slots.len() == 8,
            start >= 0,
            j >= 0,
        ensures
            self.scan(start, j) is Some ==> 0 <= self.scan(start, j)->0 < 8
                && self.slots[self.scan(start, j)->0].schedulable(),
        decreases 8 - j,
    {
        if j < 8 && !self.slots[(start + j) % 8].schedulable() {
            self.lemma_scan_finds(start, j + 1);
        }
    }

    /// A scan that meets no slot to pick before slot `c` comes up, and
    /// finds `c` fit, ends at `c`.
    pub proof fn lemma_scan_skips(&self, start: int, j: int, c: int)
        requires
            self.slots.len() == 8,
            0 <= c < 8,
            start == c + 1,
            0 <= j <= 7,
            self.slots[c].schedulable(),
            forall|k: int| 0 <= k < 8 && k != c ==> !(#[trigger] self.slots[k]).schedulable(),
        ensures
            self.scan(start, j) == Some(c),
        decreases 8 - j,
    {
        if j < 7 {
            assert((start + j) % 8 != c);
            self.lemma_scan_skips(start, j + 1, c);
        } else {
            assert((start + 7) % 8 == c);
        }
    }

    /// Every process that is parked lies inside its own stack: the stack
    /// pointer kept for a slot in use points at seventeen words of the
    /// slot's own stack.
    pub proof fn lemma_parked_in_own_stack(&self, i: int)
        requires
            self.wf(),
            self.in_use(i),
        ensures
            self.slots[i].stack.base.0 <= self.slots[i].sp.0,
            self.slots[i].sp.0 + 68 <= self.slots[i].stack.top(),
            self.slots[i].stack.holds(self.slots[i].sp.0, 17),
    {
        assert(self.slot_wf(i));
    }

    /// Once the idle process is there and can run, exactly one slot in use
    /// has pid 0, and its process can run.
    pub proof fn lemma_one_idle(&self)
        requires
            self.wf(),
            self.idle_ready(),
        ensures
            exists|i: int|
                #[trigger] self.in_use(i) && self.slots[i].pid == 0 && self.slots[i].state
                    == State::Runnable && forall|j: int|
                    #[trigger] self.in_use(j) && self.slots[j].pid == 0 ==> j == i,
    {
        let i = choose|i: int|
            #[trigger] self.in_use(i) && self.slots[i].pid == 0 && self.slots[i].state
                == State::Runnable;
        assert(forall|j: int| #[trigger] self.in_use(j) && self.slots[j].pid == 0 ==> j == i);
    }

    /// A table of unused slots whose stacks lie one after the other from
    /// `stacks` on.
    pub fn new(stacks: VAddr) -> (r: Self)
        requires
            stacks.0 as int % 4 == 0,
            stacks.0 as int + 8 * 8192 <= u32::MAX,
        ensures
            r.wf(),
            forall|i: int| 0 <= i < 8 ==> (#[trigger] r.slots[i]).is_empty_at(stacks.0 + i * 8192),
    {
        let mut slots: Vec<Process> = Vec::new();
        let mut i: u32 = 0;
        while i < 8
            invariant
                i <= 8,
                stacks.0 as int % 4 == 0,
                stacks.0 as int + 8 * 8192 <= u32::MAX,
                slots.len() == i,
                forall|k: int| 0 <= k < i ==> (#[trigger] slots[k]).is_empty_at(stacks.0 + k * 8192),
            decreases 8 - i,
        {
            slots.push(Process::empty(VAddr::new(stacks.0 + i * 8192)));
            i = i + 1;
        }
        Procs { slots }
    }

    /// Index of the first slot with pid `pid`.
    pub fn try_get_index(&self, pid: usize) -> (r: Option<usize>)
        ensures
            r is Some <==> exists|i: int| 0 <= i < self.slots.len() && self.slots[i].pid == pid,
            r is Some ==> r->0 < self.slots.len() && self.slots[r->0 as int].pid == pid && forall|
                j: int,
            |
                0 <= j < r->0 ==> self.slots[j].pid != pid,
            (match r {
                Some(i) => Some(i as int),
                None => None,
            }) == self.index_of(pid),
    {
        let mut i: usize = 0;
        while i < self.slots.len()
            invariant
                i <= self.slots.len(),
                forall|j: int| 0 <= j < i ==> self.slots[j].pid != pid,
            decreases self.slots.len() - i,
        {
            if self.slots[i].pid == pid {
                proof {
                    let c = self.index_of(pid)->0;
                    assert(c == i) by {
                        if c < i {
                        } else if c > i {
                        }
                    }
                }
                return Some(i);
            }
            i = i + 1;
        }
        None
    }

    /// Whether a process can still be created.
    pub fn has_free_slot(&self) -> (r: bool)
        ensures
            r == self.free_slot() is Some,
    {
        self.find_free_slot().is_some()
    }

    /// Index of the first unused slot.
    pub fn find_free_slot(&self) -> (r: Option<usize>)
        ensures
            (match r {
                Some(i) => Some(i as int),
                None => None,
            }) == self.free_slot(),
            r is Some ==> r->0 < self.slots.len() && self.slots[r->0 as int].state == State::Unused,
    {
        let mut i: usize = 0;
        while i < self.slots.len()
            invariant
                i <= self.slots.len(),
                forall|j: int| 0 <= j < i ==> self.slots[j].state != State::Unused,
            decreases self.slots.len() - i,
        {
            if self.slots[i].state == State::Unused {
                proof {
                    let c = self.free_slot()->0;
                    assert(c == i) by {
                        if c < i {
                        } else if c > i {
                        }
                    }
                }
                return Some(i);
            }
            i = i + 1;
        }
        None
    }

    /// The pid to run after the process with pid `current_pid`: round the
    /// table from the slot after it, the first process that can run and is
    /// not the idle process; the idle pid if there is none.
    pub fn get_next(&self, current_pid: usize) -> (r: usize)
        requires
            self.slots.len() == 8,
            self.index_of(current_pid) is Some,
        ensures
            r == self.next_after(self.index_of(current_pid)->0),
    {
        let current: usize = match self.try_get_index(current_pid) {
            Some(i) => i,
            None => 0,
        };
        let start: usize = current + 1;
        let mut j: usize = 0;
        while j < PROCS_MAX
            invariant
                j <= 8,
                start <= 8,
                start == self.index_of(current_pid)->0 + 1,
                self.slots.len() == 8,
                self.scan(start as int, 0) == self.scan(start as int, j as int),
            decreases 8 - j,
        {
            let at: usize = (start + j) % PROCS_MAX;
            if self.slots[at].state == State::Runnable && self.slots[at].pid != IDLE_PID {
                assert(self.slots[at as int].schedulable());
                assert(self.scan(start as int, j as int) == Some(at as int));
                return self.slots[at].pid;
            }
            j = j + 1;
        }
        IDLE_PID
    }
}

/// Whether `space` maps every page of the kernel onto itself, readable,
/// writable and executable, and the device's page onto itself, readable and
/// writable.
pub open spec fn kernel_mapped(space: AddressSpace, layout: MemoryLayout) -> bool {
    &&& forall|vpn: int|
        layout.kernel_page() <= vpn < layout.kernel_page() + layout.kernel_pages()
            ==> #[trigger] space.identity_mapped(vpn, 14u32)
    &&& space.identity_mapped(layout.virtio_page(), 6u32)
}

/// In an address space that maps the kernel and the device, a walk for an
/// address of the kernel finds the page of the same address, valid,
/// readable, writable and executable, and a walk for an address of the
/// device's page finds that page, valid, readable and writable.
pub proof fn lemma_kernel_translates(space: AddressSpace, layout: MemoryLayout, va: VAddr)
    requires
        kernel_mapped(space, layout),
    ensures
        layout.kernel_page() <= va.spec_page() < layout.kernel_page() + layout.kernel_pages()
            ==> space.spec_translate(va) == Some(
            (PAddr((va.spec_page() * 0x1000) as u32), 15u32),
        ),
        va.spec_page() == layout.virtio_page() ==> space.spec_translate(va) == Some(
            (PAddr((va.spec_page() * 0x1000) as u32), 7u32),
        ),
{
    let a: u32 = va.0;
    let page: u32 = (va.spec_page() * 0x1000) as u32;
    assert(page == (a / 0x1000u32) * 0x1000u32 && page % 0x1000u32 == 0u32) by (bit_vector)
        requires
            page == ((a / 0x1000u32) * 0x1000u32) as u32,
    ;
    let rwx: u32 = ((page >> 12u32) << 10u32) | 14u32 | 1u32;
    let rw: u32 = ((page >> 12u32) << 10u32) | 6u32 | 1u32;
    assert(rwx & 0xffu32 == 15u32 && (((rwx as int / 0x400) * 0x1000) % 0x1_0000_0000) as u32
        == page) by (bit_vector)
        requires
            rwx == ((page >> 12u32) << 10u32) | 14u32 | 1u32,
            page % 0x1000u32 == 0u32,
    ;
    assert(rw & 0xffu32 == 7u32 && (((rw as int / 0x400) * 0x1000) % 0x1_0000_0000) as u32 == page)
        by (bit_vector)
        requires
            rw == ((page >> 12u32) << 10u32) | 6u32 | 1u32,
            page % 0x1000u32 == 0u32,
    ;
    if layout.kernel_page() <= va.spec_page() < layout.kernel_page() + layout.kernel_pages() {
        assert(space.identity_mapped(va.spec_page(), 14u32));
    }
    if va.spec_page() == layout.virtio_page() {
        assert(space.identity_mapped(va.spec_page(), 6u32));
    }
}

impl Procs {
    /// Whether the address space of every slot in use maps the kernel and
    /// the device.
    pub open spec fn kernel_mapped(&self, layout: MemoryLayout) -> bool {
        forall|i: int|
            0 <= i < self.slots.len() && (#[trigger] self.slots[i]).state != State::Unused
                ==> self.slots[i].page_table is Some && kernel_mapped(
                self.slots[i].page_table->0,
                layout,
            )
    }
}

/// What creating a process leaves in the slot it fills, `p`, which was
/// `slot` before, when the allocator's cursor stood at `cursor`; the pid
/// apart.
pub open spec fn created(
    p: Process,
    slot: Process,
    cursor: int,
    layout: MemoryLayout,
    sstatus: u32,
    entry: u32,
    image: Seq<u8>,
) -> bool {
    &&& p.state == State::Runnable
    &&& p.is_kernel == (image.len() == 0)
    &&& p.stack.base == slot.stack.base
    &&& p.sp.0 == p.stack.top() - 68
    &&& p.page_table is Some
    &&& p.page_table->0.wf()
    &&& p.page_table->0.root_addr.0 == cursor
    &&& p.page_table->0@ == process_mappings(layout, p.image_addr, image.len() as int)
    &&& forall|v: int|
        0 <= v < 1024 ==> p.page_table->0.root.entries[v] == process_root_entry(
            layout,
            cursor,
            image.len() as int,
            v,
        )
    &&& p.stack.image_at(p.sp.0) == first_image(
        entry,
        p.is_kernel,
        p.stack.top() as u32,
        sstatus,
        p.page_table->0.root_addr,
    )
    &&& forall|k: int|
        0 <= k < 2048 - 17 ==> p.stack.words[k] == slot.stack.words[k]
    &&& image.len() > 0 ==> p.image_addr.0 == cursor + 0x1000 * (process_pages(
        layout,
        image.len() as int,
    ) - user_pages(image.len() as int) - tables_needed(
        range_tables(layout.kernel_page(), layout.kernel_pages()).union(
            range_tables(layout.virtio_page(), 1),
        ),
        0x1000,
        user_pages(image.len() as int),
    ))
    &&& image.len() == 0 ==> p.image_addr.0 == 0
    &&& p.image@ == if image.len() > 0 {
        image.add(
            Seq::new((aligned_up(image.len() as int, 0x1000) - image.len()) as nat, |k: int| 0u8),
        )
    } else {
        slot.image@
    }
}

/// Copies `image` and fills the copy up with zeros to `aligned` bytes.
fn copy_image(image: &Vec<u8>, aligned: usize) -> (data: Vec<u8>)
    requires
        image.len() <= aligned,
    ensures
        data@ == image@.add(Seq::new((aligned - image.len()) as nat, |k: int| 0u8)),
{
    let mut data: Vec<u8> = Vec::new();
    let mut j: usize = 0;
    while j < image.len()
        invariant
            j <= image.len(),
            data@ == image@.subrange(0, j as int),
        decreases image.len() - j,
    {
        data.push(image[j]);
        assert(data@ =~= image@.subrange(0, j as int + 1));
        j = j + 1;
    }
    assert(data@ =~= image@);
    while j < aligned
        invariant
            image.len() <= j <= aligned,
            data@ == image@.add(Seq::new((j - image.len()) as nat, |k: int| 0u8)),
        decreases aligned - j,
    {
        data.push(0u8);
        assert(data@ =~= image@.add(Seq::new((j + 1 - image.len()) as nat, |k: int| 0u8)));
        j = j + 1;
    }
    data
}

/// Creates a process in the first unused slot and returns its pid, the
/// slot's index plus one. The process gets an address space with the
/// kernel and the device mapped and, where `image` is not empty, a copy of
/// the image mapped at the user base; it is parked at the top of its stack
/// so that the first switch to it enters `entry`. A process with an empty
/// image is a kernel process. `sstatus` is the status word in force.
///
/// A full table and exhausted memory are fatal to the kernel: the caller
/// makes sure of a free slot and of `process_pages` free pages first.
pub fn create_process(
    procs: &mut Procs,
    alloc: &mut BumpAllocator,
    layout: &MemoryLayout,
    sstatus: u32,
    entry: u32,
    image: &Vec<u8>,
) -> (pid: usize)
    requires
        old(procs).wf(),
        old(alloc).wf(),
        layout.wf(),
        old(procs).free_slot() is Some,
        image.len() <= IMAGE_MAX,
        old(alloc).free_pages() >= process_pages(*layout, image.len() as int),
    ensures
        final(procs).wf(),
        pid == old(procs).free_slot()->0 + 1,
        final(procs).slots[pid - 1].pid == pid,
        created(
            final(procs).slots[pid - 1],
            old(procs).slots[pid - 1],
            old(alloc).cursor(),
            *layout,
            sstatus,
            entry,
            image@,
        ),
        forall|j: int|
            0 <= j < 8 && j != pid - 1 ==> final(procs).slots[j] == old(procs).slots[j],
        layout.image_clear(image.len() as int) ==> kernel_mapped(
            final(procs).slots[pid - 1].page_table->0,
            *layout,
        ),
        old(procs).kernel_mapped(*layout) && layout.image_clear(image.len() as int)
            ==> final(procs).kernel_mapped(*layout),
        old(procs).idle_ready() ==> final(procs).idle_ready(),
        forall|running: Option<int>|
            old(procs).scratch_discipline(running) ==> final(procs).scratch_discipline(running),
        final(alloc).wf(),
        final(alloc).start == old(alloc).start,
        final(alloc).end == old(alloc).end,
        final(alloc).cursor() == old(alloc).cursor() + 0x1000 * process_pages(
            *layout,
            image.len() as int,
        ),
{
    let is_kernel: bool = image.len() == 0;
    let i: usize = match procs.find_free_slot() {
        Some(i) => i,
        None => 0,
    };
    let ghost cursor0 = alloc.cursor();
    let ghost len = image.len() as int;
    let ghost kset = range_tables(layout.kernel_page(), layout.kernel_pages());
    let ghost vset = kset.union(range_tables(layout.virtio_page(), 1));

    let mut space = AddressSpace::new(alloc);
    let base: u32 = layout.kernel_base.0;
    let kpage: u32 = base / 4096;
    let kcount: u32 = (((layout.free_ram_end.0 - base) as u64 + 0xfff) / 4096) as u32;
    let kernel_flags: u32 = PAGE_R | PAGE_W | PAGE_X;
    assert(2u32 | 4u32 | 8u32 == 14u32) by (bit_vector);
    let ghost space0 = space;
    map_range(&mut space, alloc, kpage, kpage, kcount, kernel_flags);
    assert(space.table_set() =~= kset);
    let ghost space1 = space;
    let vpage: u32 = layout.virtio_blk.0 / 4096;
    let device_flags: u32 = PAGE_R | PAGE_W;
    assert(2u32 | 4u32 == 6u32) by (bit_vector);
    map_range(&mut space, alloc, vpage, vpage, 1, device_flags);
    assert(space.table_set() =~= vset);
    let ghost space2 = space;
    proof {
        assert(missing_in(kset, vpage as int / 1024, vpage as int / 1024) == 0);
        assert forall|v: int| 0 <= v < 1024 implies space.root.entries[v] == process_root_entry(
            *layout,
            cursor0,
            0,
            v,
        ) by {
            assert(space0.has_table(v) == space0.table_set().contains(v));
            assert(space1.has_table(v) == kset.contains(v));
            assert(range_tables(vpage as int, 1).contains(v) == (v == vpage as int / 1024));
        }
    }
    assert(space@ == kernel_mappings(*layout));

    let mut image_addr: PAddr = PAddr::new(0);
    let mut data: Vec<u8> = Vec::new();
    if !is_kernel {
        let aligned: usize = align_up(image.len(), PAGE_SIZE);
        image_addr = alloc.allocate(aligned);
        data = copy_image(image, aligned);
        let pages: u32 = (aligned / PAGE_SIZE) as u32;
        let user_flags: u32 = PAGE_U | PAGE_R | PAGE_W | PAGE_X;
        assert(16u32 | 2u32 | 4u32 | 8u32 == 30u32) by (bit_vector);
        map_range(&mut space, alloc, 0x1000, image_addr.0 / 4096, pages, user_flags);
        proof {
            assert forall|v: int| 0 <= v < 1024 implies space.root.entries[v]
                == process_root_entry(*layout, cursor0, len, v) by {
                assert(space2.root.entries[v] == process_root_entry(*layout, cursor0, 0, v));
                assert(space2.has_table(v) == vset.contains(v));
                assert(range_tables(vpage as int, 1).contains(v) == (v == vpage as int / 1024));
            }
        }
    }
    assert(space@ == process_mappings(*layout, image_addr, len));

    assert(procs.slot_wf(i as int));
    let top: u32 = procs.slots[i].stack.top_addr();
    let parked: u32 = top - IMAGE_BYTES;
    let first = ParkedImage {
        ra: entry,
        s: [0u32; 12],
        sscratch: if is_kernel {
            0
        } else {
            top
        },
        sepc: if is_kernel {
            0
        } else {
            USER_BASE
        },
        sstatus: if is_kernel {
            sstatus
        } else {
            sstatus | SSTATUS_SUM
        },
        satp: satp_for(space.root_addr),
    };
    assert(first@ =~= first_image(entry, is_kernel, top, sstatus, space.root_addr));
    let ghost space_root = space.root_addr;
    proof {
        if layout.image_clear(len) {
            assert(kernel_mapped(space, *layout));
        }
    }
    procs.slots[i].stack.write_image(parked, &first);
    procs.slots[i].page_table = Some(space);
    procs.slots[i].image_addr = image_addr;
    if !is_kernel {
        procs.slots[i].image = data;
    }
    procs.slots[i].pid = i + 1;
    procs.slots[i].state = State::Runnable;
    procs.slots[i].is_kernel = is_kernel;
    procs.slots[i].sp = VAddr::new(parked);
    proof {
        let w = first_image(entry, is_kernel, top, sstatus, space_root);
        assert(w[13] == 0 || w[13] == top);
        assert forall|running: Option<int>|
            old(procs).scratch_discipline(running) implies procs.scratch_discipline(running) by {
            assert forall|j: int|
                #[trigger] procs.in_use(j) && running != Some(j) implies procs.parked_scratch_ok(
                j,
            ) by {
                if j != i as int {
                    assert(old(procs).in_use(j));
                    assert(old(procs).parked_scratch_ok(j));
                }
            }
        }
        if old(procs).idle_ready() {
            let w = choose|w: int|
                #[trigger] old(procs).in_use(w) && old(procs).slots[w].pid == 0 && old(
                    procs,
                ).slots[w].state == State::Runnable;
            assert(procs.in_use(w));
        }
        assert forall|j: int| 0 <= j < 8 implies #[trigger] procs.slot_wf(j) by {
            assert(old(procs).slot_wf(j));
        }
        assert forall|j: int| 0 < j < 8 && #[trigger] procs.in_use(j) implies procs.in_use(
            j - 1,
        ) by {
            if j != i as int && j - 1 != i as int {
                assert(old(procs).in_use(j));
            }
        }
        assert forall|a: int, b: int|
            #[trigger] procs.in_use(a) && #[trigger] procs.in_use(b) && procs.slots[a].pid == 0
                && procs.slots[b].pid == 0 implies a == b by {
            assert(old(procs).in_use(a) && old(procs).in_use(b));
        }
    }
    i + 1
}

/// The first switch to a new process enters it at its entry point, with
/// the supervisor's access to user memory open exactly for a user process,
/// provided that access was closed in the status word in force when the
/// process was made. The scratch register is zero for a kernel process and
/// holds the top of the kernel stack for a user process.
pub proof fn lemma_first_switch(
    before: Cpu,
    after: Cpu,
    entry: u32,
    is_kernel: bool,
    stack_top: u32,
    sstatus: u32,
    root: PAddr,
    sp: u32,
    sie: bool,
)
    requires
        resumes(before, after, first_image(entry, is_kernel, stack_top, sstatus, root), sp, sie),
        sstatus & 0x4_0000u32 == 0u32,
    ensures
        after.ra == entry,
        (after.sstatus & 0x4_0000u32 != 0u32) == !is_kernel,
        after.sscratch == if is_kernel {
            0u32
        } else {
            stack_top
        },
        after.sepc == if is_kernel {
            0u32
        } else {
            0x0100_0000u32
        },
        after.satp == spec_satp(root),
        forall|j: int| 0 <= j < 12 ==> after.s[j] == 0,
{
    let w = first_image(entry, is_kernel, stack_top, sstatus, root);
    assert(w[0] == entry);
    assert(w[15] == if is_kernel {
        sstatus
    } else {
        sstatus | 0x4_0000u32
    });
    assert((sstatus | 0x4_0000u32) & 0x4_0000u32 != 0u32) by (bit_vector);
    assert(((sstatus | 0x4_0000u32) | 2u32) & 0x4_0000u32 != 0u32) by (bit_vector);
    assert((sstatus | 2u32) & 0x4_0000u32 == sstatus & 0x4_0000u32) by (bit_vector);
    assert forall|j: int| 0 <= j < 12 implies after.s[j] == 0 by {
        assert(w[1 + j] == 0u32);
    }
}

/// The root indices marked in `present`.
pub open spec fn marked(present: Seq<bool>) -> Set<int> {
    Set::new(|v: int| 0 <= v < present.len() && present[v])
}

/// Counts the second-level tables that mapping the `count` pages from page
/// number `first` on would make, given the root indices marked in
/// `present`, and marks those the pages touch.
fn count_tables(present: &mut Vec<bool>, first: u32, count: u32) -> (n: u32)
    requires
        old(present).len() == 1024,
        first + count <= 0x10_0000,
    ensures
        final(present).len() == 1024,
        n == tables_needed(marked(old(present)@), first as int, count as int),
        n <= 1024,
        marked(final(present)@) == marked(old(present)@).union(
            range_tables(first as int, count as int),
        ),
{
    if count == 0 {
        assert(marked(present@) =~= marked(old(present)@).union(range_tables(first as int, 0)));
        return 0;
    }
    let lo: usize = (first / 1024) as usize;
    let hi: usize = ((first + count - 1) / 1024) as usize;
    let mut i: usize = lo;
    let mut n: u32 = 0;
    while i <= hi
        invariant
            lo <= i <= hi + 1,
            hi < 1024,
            present.len() == 1024,
            old(present).len() == 1024,
            n <= i - lo,
            n == missing_in(marked(old(present)@), lo as int, i as int),
            forall|v: int| 0 <= v < 1024 && !(lo <= v < i) ==> present[v] == old(present)[v],
            forall|v: int| lo <= v < i ==> present[v],
        decreases hi + 1 - i,
    {
        assert(present[i as int] == old(present)[i as int]);
        assert(marked(old(present)@).contains(i as int) == old(present)[i as int]);
        if !present[i] {
            n = n + 1;
            present[i] = true;
        }
        i = i + 1;
    }
    assert(marked(present@) =~= marked(old(present)@).union(
        range_tables(first as int, count as int),
    ));
    n
}

/// Pages that `create_process` would take from the allocator for an image
/// of `image_len` bytes.
pub fn pages_for_process(layout: &MemoryLayout, image_len: usize) -> (pages: u64)
    requires
        layout.wf(),
        image_len <= IMAGE_MAX,
    ensures
        pages == process_pages(*layout, image_len as int),
{
    let mut present: Vec<bool> = Vec::new();
    let mut i: usize = 0;
    while i < 1024
        invariant
            i <= 1024,
            present.len() == i,
            forall|v: int| 0 <= v < i ==> !present[v],
        decreases 1024 - i,
    {
        present.push(false);
        i = i + 1;
    }
    assert(marked(present@) =~= Set::<int>::empty());
    let base: u32 = layout.kernel_base.0;
    let kpage: u32 = base / 4096;
    let kcount: u32 = (((layout.free_ram_end.0 - base) as u64 + 0xfff) / 4096) as u32;
    let for_kernel: u32 = count_tables(&mut present, kpage, kcount);
    assert(marked(present@) =~= range_tables(layout.kernel_page(), layout.kernel_pages()));
    let for_device: u32 = count_tables(&mut present, layout.virtio_blk.0 / 4096, 1);
    let mut pages: u64 = 1 + for_kernel as u64 + for_device as u64;
    if image_len > 0 {
        let aligned: usize = align_up(image_len, PAGE_SIZE);
        let image_pages: u32 = (aligned / PAGE_SIZE) as u32;
        let for_image: u32 = count_tables(&mut present, 0x1000, image_pages);
        pages = pages + image_pages as u64 + for_image as u64;
    }
    pages
}

} // verus!
