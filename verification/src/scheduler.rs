//! The round-robin scheduler: which process runs, which runs next, and the
//! switch between the two.

use vstd::prelude::*;
use crate::address::VAddr;
use crate::allocator::BumpAllocator;
use crate::context::{
    image_of, restore_context, resumes, save_context, scratch_ok, Cpu, KernelStack, SSTATUS_SIE,
};
use crate::page::{satp_for, spec_satp};
use crate::process::{
    create_process, created, process_pages, MemoryLayout, Process, Procs, State, IDLE_PID,
};

verus! {

/// A switch that the scheduler has decided on.
#[derive(Clone, Copy, Debug, PartialEq, Eq, Structural)]
pub struct Switch {
    /// Slot of the process to park; none when the context that runs is the
    /// one the machine booted in, which is never resumed.
    pub prev: Option<usize>,
    /// Slot of the process to resume.
    pub next: usize,
    /// The translation root of the process to resume.
    pub satp: u32,
}

/// The scheduler's state.
#[derive(Debug)]
pub struct Scheduler {
    pub procs: Procs,
    /// The pid of the process that runs.
    pub current_proc: Option<usize>,
    /// The pid of the idle process, once it is made.
    pub idle_proc: Option<usize>,
    /// Whether no switch has been decided on yet.
    pub first_boot: bool,
}

impl Scheduler {
    /// The table is well formed; the process that runs has a slot; and the
    /// idle process has a slot exactly when the scheduler has made it.
    pub open spec fn wf(&self) -> bool {
        &&& self.procs.wf()
        &&& self.current_proc is Some ==> exists|i: int|
            #[trigger] self.procs.in_use(i) && self.procs.slots[i].pid == self.current_proc->0
        &&& self.idle_proc is Some ==> self.idle_proc == Some(0usize) && self.current_proc is Some
            && exists|i: int| #[trigger] self.procs.in_use(i) && self.procs.slots[i].pid == 0
        &&& self.idle_proc is None ==> forall|i: int|
            #[trigger] self.procs.in_use(i) ==> self.procs.slots[i].pid != 0
    }

    /// Slot of the process that runs.
    pub open spec fn current_index(&self) -> int {
        self.procs.index_of(self.current_proc->0)->0
    }

    /// The pid that a yield hands the processor to.
    pub open spec fn next_pid(&self) -> usize {
        self.procs.next_after(self.current_index())
    }

    /// What a yield decides: nothing where the process that runs is also
    /// the next, else the switch to the next.
    pub open spec fn decided(&self) -> Option<Switch> {
        let next = self.next_pid();
        if next == self.current_proc->0 {
            None
        } else {
            let ni = self.procs.index_of(next)->0;
            Some(
                Switch {
                    prev: if self.first_boot {
                        None
                    } else {
                        Some(self.current_index() as usize)
                    },
                    next: ni as usize,
                    satp: spec_satp(self.procs.slots[ni].page_table->0.root_addr),
                },
            )
        }
    }

    /// A process that alone can run keeps the processor: where the slot of
    /// the process that runs is the only one the scheduler may pick, a
    /// yield decides on no switch. As such a yield changes nothing, the
    /// next one decides the same.
    pub proof fn lemma_sole_runnable_keeps_running(&self)
        requires
            self.wf(),
            self.current_proc is Some,
            self.procs.slots[self.current_index()].schedulable(),
            forall|k: int|
                0 <= k < 8 && k != self.current_index() ==> !(
                #[trigger] self.procs.slots[k]).schedulable(),
        ensures
            self.decided() is None,
    {
        let i = choose|i: int|
            #[trigger] self.procs.in_use(i) && self.procs.slots[i].pid == self.current_proc->0;
        self.procs.lemma_index_of_live(i);
        self.procs.lemma_scan_skips(i + 1, 0, i);
    }

    /// A scheduler over an empty table whose stacks lie from `stacks` on.
    pub fn new(stacks: VAddr) -> (r: Self)
        requires
            stacks.0 as int % 4 == 0,
            stacks.0 as int + 8 * 8192 <= u32::MAX,
        ensures
            r.wf(),
            r.current_proc is None,
            r.idle_proc is None,
            r.first_boot,
            forall|i: int|
                0 <= i < 8 ==> (#[trigger] r.procs.slots[i]).is_empty_at(stacks.0 + i * 8192),
    {
        Scheduler { procs: Procs::new(stacks), current_proc: None, idle_proc: None, first_boot: true }
    }

    /// Makes the idle process, a kernel process with entry `idle_entry`
    /// whose pid is set to 0, and makes it the process that runs.
    pub fn scheduler_init(
        &mut self,
        alloc: &mut BumpAllocator,
        layout: &MemoryLayout,
        sstatus: u32,
        idle_entry: u32,
    )
        requires
            old(self).wf(),
            old(self).idle_proc is None,
            old(alloc).wf(),
            layout.wf(),
            old(self).procs.free_slot() is Some,
            old(alloc).free_pages() >= process_pages(*layout, 0),
        ensures
            final(self).wf(),
            final(self).procs.idle_ready(),
            final(self).current_proc == Some(0usize),
            final(self).idle_proc == Some(0usize),
            final(self).first_boot == old(self).first_boot,
            ({
                let i = old(self).procs.free_slot()->0;
                &&& final(self).procs.slots[i].pid == 0
                &&& created(
                    final(self).procs.slots[i],
                    old(self).procs.slots[i],
                    old(alloc).cursor(),
                    *layout,
                    sstatus,
                    idle_entry,
                    Seq::empty(),
                )
                &&& forall|j: int|
                    0 <= j < 8 && j != i ==> final(self).procs.slots[j] == old(self).procs.slots[j]
            }),
            old(self).procs.kernel_mapped(*layout) && layout.image_clear(0)
                ==> final(self).procs.kernel_mapped(*layout),
            forall|running: Option<int>|
                old(self).procs.scratch_discipline(running)
                    ==> final(self).procs.scratch_discipline(running),
            final(alloc).wf(),
            final(alloc).start == old(alloc).start,
            final(alloc).end == old(alloc).end,
            final(alloc).cursor() == old(alloc).cursor() + 0x1000 * process_pages(*layout, 0),
    {
        let image: Vec<u8> = Vec::new();
        assert(image@ =~= Seq::empty());
        let pid: usize = create_process(&mut self.procs, alloc, layout, sstatus, idle_entry, &image);
        let ghost mid = self.procs;
        let i: usize = pid - 1;
        self.procs.slots[i].pid = IDLE_PID;
        self.current_proc = Some(IDLE_PID);
        self.idle_proc = Some(IDLE_PID);
        proof {
            assert forall|running: Option<int>|
                old(self).procs.scratch_discipline(running) implies self.procs.scratch_discipline(
                running,
            ) by {
                assert forall|j: int|
                    #[trigger] self.procs.in_use(j) && running != Some(
                        j,
                    ) implies self.procs.parked_scratch_ok(j) by {
                    assert(mid.in_use(j));
                    assert(mid.parked_scratch_ok(j));
                }
            }
            assert(mid.slot_wf(i as int));
            assert(self.procs.in_use(i as int));
            assert forall|j: int| 0 <= j < 8 implies #[trigger] self.procs.slot_wf(j) by {
                assert(mid.slot_wf(j));
            }
            assert forall|j: int| 0 < j < 8 && #[trigger] self.procs.in_use(j) implies self.procs.in_use(
                j - 1,
            ) by {
                assert(mid.in_use(j));
            }
            assert forall|a: int, b: int|
                #[trigger] self.procs.in_use(a) && #[trigger] self.procs.in_use(b)
                    && self.procs.slots[a].pid == 0 && self.procs.slots[b].pid == 0 implies a
                == b by {
                if a != i as int {
                    assert(old(self).procs.in_use(a));
                }
                if b != i as int {
                    assert(old(self).procs.in_use(b));
                }
            }
            if old(self).procs.kernel_mapped(*layout) && layout.image_clear(0) {
                assert forall|j: int|
                    0 <= j < 8 && (#[trigger] self.procs.slots[j]).state
                        != State::Unused implies self.procs.slots[j].page_table is Some
                    && crate::process::kernel_mapped(self.procs.slots[j].page_table->0, *layout) by {
                    assert(mid.slots[j].state != State::Unused);
                }
            }
        }
    }
}

/// Gives the processor up: decides which process runs next, round the table
/// from the slot after the one that runs, and makes it the current one.
/// Returns the switch to perform, or nothing where the process that runs
/// is itself the next.
pub fn yield_now(sched: &mut Scheduler) -> (r: Option<Switch>)
    requires
        old(sched).wf(),
        old(sched).idle_proc is Some,
    ensures
        r == old(sched).decided(),
        final(sched).wf(),
        final(sched).procs == old(sched).procs,
        final(sched).idle_proc == old(sched).idle_proc,
        r is None ==> final(sched).current_proc == old(sched).current_proc
            && final(sched).first_boot == old(sched).first_boot,
        r is Some ==> final(sched).current_proc == Some(old(sched).next_pid())
            && !final(sched).first_boot,
        r is Some ==> old(sched).procs.in_use(r->0.next as int) && r->0.next
            != old(sched).current_index() && old(sched).procs.slots[r->0.next as int].pid
            == old(sched).next_pid(),
        r is Some && r->0.prev is Some ==> r->0.prev->0 == old(sched).current_index()
            && old(sched).procs.in_use(r->0.prev->0 as int),
{
    let current_pid: usize = match sched.current_proc {
        Some(p) => p,
        None => 0,
    };
    proof {
        let i = choose|i: int|
            #[trigger] sched.procs.in_use(i) && sched.procs.slots[i].pid == current_pid;
        sched.procs.lemma_index_of_live(i);
        sched.procs.lemma_scan_finds(i + 1, 0);
        let found = sched.procs.scan(i + 1, 0);
        if found is Some {
            assert(sched.procs.in_use(found->0));
            sched.procs.lemma_index_of_live(found->0);
        } else {
            let z = choose|z: int| #[trigger] sched.procs.in_use(z) && sched.procs.slots[z].pid == 0;
            sched.procs.lemma_index_of_live(z);
        }
    }
    let next_pid: usize = sched.procs.get_next(current_pid);
    if next_pid == current_pid {
        return None;
    }
    let next_index: usize = match sched.procs.try_get_index(next_pid) {
        Some(i) => i,
        None => 0,
    };
    let current_index: usize = match sched.procs.try_get_index(current_pid) {
        Some(i) => i,
        None => 0,
    };
    assert(sched.procs.slot_wf(next_index as int));
    let satp: u32 = match &sched.procs.slots[next_index].page_table {
        Some(space) => satp_for(space.root_addr),
        None => 0,
    };
    let prev: Option<usize> = if sched.first_boot {
        None
    } else {
        Some(current_index)
    };
    sched.first_boot = false;
    sched.current_proc = Some(next_pid);
    assert(sched.procs.in_use(next_index as int));
    Some(Switch { prev, next: next_index, satp })
}

/// Whether `after` is `before` with the process that runs marked as
/// exited and nothing else changed.
pub open spec fn exited(before: Scheduler, after: Scheduler) -> bool {
    &&& after.current_proc == before.current_proc
    &&& after.idle_proc == before.idle_proc
    &&& after.first_boot == before.first_boot
    &&& after.procs.slots.len() == before.procs.slots.len()
    &&& after.procs.slots[before.current_index()] == (Process {
        state: State::Exited,
        ..before.procs.slots[before.current_index()]
    })
    &&& forall|j: int|
        0 <= j < 8 && j != before.current_index() ==> after.procs.slots[j]
            == before.procs.slots[j]
}

/// Ends the process that runs: its slot is marked as exited and is not
/// given out again.
pub fn exit_current(sched: &mut Scheduler)
    requires
        old(sched).wf(),
        old(sched).current_proc is Some,
    ensures
        final(sched).wf(),
        exited(*old(sched), *final(sched)),
        old(sched).current_proc != Some(0usize) && old(sched).procs.idle_ready()
            ==> final(sched).procs.idle_ready(),
        forall|layout: MemoryLayout|
            old(sched).procs.kernel_mapped(layout) ==> final(sched).procs.kernel_mapped(layout),
        forall|running: Option<int>|
            old(sched).procs.scratch_discipline(running) ==> final(sched).procs.scratch_discipline(
                running,
            ),
{
    let current_pid: usize = match sched.current_proc {
        Some(p) => p,
        None => 0,
    };
    let ghost i = choose|i: int|
        #[trigger] sched.procs.in_use(i) && sched.procs.slots[i].pid == current_pid;
    proof {
        sched.procs.lemma_index_of_live(i);
    }
    match sched.procs.try_get_index(current_pid) {
        Some(at) => {
            sched.procs.slots[at].state = State::Exited;
        },
        None => {},
    }
    proof {
        let before = old(sched).procs;
        let after = sched.procs;
        assert forall|j: int| 0 <= j < 8 implies #[trigger] after.slot_wf(j) by {
            assert(before.slot_wf(j));
        }
        assert forall|j: int| 0 <= j < 8 implies (#[trigger] after.in_use(j) <==> before.in_use(
            j,
        )) by {}
        assert forall|j: int| 0 < j < 8 && #[trigger] after.in_use(j) implies after.in_use(
            j - 1,
        ) by {
            assert(before.in_use(j));
        }
        assert forall|a: int, b: int|
            #[trigger] after.in_use(a) && #[trigger] after.in_use(b) && after.slots[a].pid == 0
                && after.slots[b].pid == 0 implies a == b by {
            assert(before.in_use(a) && before.in_use(b));
        }
        assert(after.in_use(i));
        if sched.idle_proc is Some {
            let z = choose|z: int| #[trigger] before.in_use(z) && before.slots[z].pid == 0;
            assert(after.in_use(z));
        } else {
            assert forall|j: int| #[trigger] after.in_use(j) implies after.slots[j].pid != 0 by {
                assert(before.in_use(j));
            }
        }
        assert forall|running: Option<int>|
            before.scratch_discipline(running) implies after.scratch_discipline(running) by {
            assert forall|j: int|
                #[trigger] after.in_use(j) && running != Some(j) implies after.parked_scratch_ok(
                j,
            ) by {
                assert(before.in_use(j));
                assert(before.parked_scratch_ok(j));
            }
        }
        if old(sched).current_proc != Some(0usize) && before.idle_ready() {
            let z = choose|z: int|
                #[trigger] before.in_use(z) && before.slots[z].pid == 0 && before.slots[z].state
                    == State::Runnable;
            assert(after.in_use(z));
        }
        assert forall|layout: MemoryLayout| before.kernel_mapped(layout) implies after.kernel_mapped(
            layout,
        ) by {
            assert forall|j: int|
                0 <= j < 8 && (#[trigger] after.slots[j]).state
                    != State::Unused implies after.slots[j].page_table is Some
                && crate::process::kernel_mapped(after.slots[j].page_table->0, layout) by {
                assert(before.slots[j].state != State::Unused);
            }
        }
    }
}

/// Whether `after` holds what `before` held in every word but the 17 from
/// address `sp` on.
pub open spec fn kept_outside(before: KernelStack, after: KernelStack, sp: u32) -> bool {
    forall|i: int|
        0 <= i < 2048 && !(before.index_of(sp) <= i < before.index_of(sp) + 17)
            ==> after.words[i] == before.words[i]
}

/// The slot that a switch parks, as an index.
pub open spec fn slot_of(prev: Option<usize>) -> Option<int> {
    match prev {
        Some(p) => Some(p as int),
        None => None,
    }
}

/// Performs a switch on the table: parks the context that runs on the stack
/// of slot `sw.prev`, or on `boot_stack` where there is none, and resumes
/// the process of slot `sw.next` from where it is parked. Returns whether
/// the translation cache was flushed.
pub fn run_switch(
    procs: &mut Procs,
    cpu: &mut Cpu,
    boot_stack: &mut KernelStack,
    sw: Switch,
) -> (flushed: bool)
    requires
        old(procs).wf(),
        old(procs).in_use(sw.next as int),
        match sw.prev {
            Some(p) => old(procs).in_use(p as int) && p != sw.next && old(
                procs,
            ).slots[p as int].stack.holds(old(cpu).sp, 0) && old(cpu).sp as int - 68 >= old(
                procs,
            ).slots[p as int].stack.base.0,
            None => old(boot_stack).wf() && old(boot_stack).holds(old(cpu).sp, 0) && old(cpu).sp as int
                - 68 >= old(boot_stack).base.0,
        },
    ensures
        final(procs).wf(),
        resumes(
            *old(cpu),
            *final(cpu),
            old(procs).slots[sw.next as int].stack.image_at(old(procs).slots[sw.next as int].sp.0),
            old(procs).slots[sw.next as int].sp.0,
            old(cpu).sstatus & 2u32 != 0u32,
        ),
        flushed == (old(cpu).satp != old(procs).slots[sw.next as int].stack.image_at(
            old(procs).slots[sw.next as int].sp.0,
        )[16]),
        old(cpu).tlb_coherent() ==> final(cpu).tlb_coherent(),
        forall|j: int|
            0 <= j < 8 && sw.prev != Some(j as usize) ==> final(procs).slots[j] == old(
                procs,
            ).slots[j],
        match sw.prev {
            Some(p) => {
                &&& final(procs).slots[p as int] == (Process {
                    sp: VAddr((old(cpu).sp - 68) as u32),
                    stack: final(procs).slots[p as int].stack,
                    ..old(procs).slots[p as int]
                })
                &&& final(procs).slots[p as int].stack.base == old(procs).slots[p as int].stack.base
                &&& final(procs).slots[p as int].stack.image_at((old(cpu).sp - 68) as u32)
                    == image_of(*old(cpu))@
                &&& kept_outside(
                    old(procs).slots[p as int].stack,
                    final(procs).slots[p as int].stack,
                    (old(cpu).sp - 68) as u32,
                )
                &&& *final(boot_stack) == *old(boot_stack)
            },
            None => {
                &&& final(boot_stack).base == old(boot_stack).base
                &&& final(boot_stack).image_at((old(cpu).sp - 68) as u32) == image_of(*old(cpu))@
                &&& kept_outside(*old(boot_stack), *final(boot_stack), (old(cpu).sp - 68) as u32)
            },
        },
        old(procs).idle_ready() ==> final(procs).idle_ready(),
        forall|layout: MemoryLayout|
            old(procs).kernel_mapped(layout) ==> final(procs).kernel_mapped(layout),
        old(procs).scratch_discipline(slot_of(sw.prev)) && (sw.prev is Some ==> scratch_ok(
            *old(cpu),
            old(procs).slots[sw.prev->0 as int].stack,
        )) ==> final(procs).scratch_discipline(Some(sw.next as int)) && scratch_ok(
            *final(cpu),
            final(procs).slots[sw.next as int].stack,
        ),
{
    let sie: bool = cpu.sstatus & SSTATUS_SIE != 0;
    assert(procs.slot_wf(sw.next as int));
    match sw.prev {
        Some(p) => {
            assert(procs.slot_wf(p as int));
            let parked = save_context(cpu, &mut procs.slots[p].stack);
            procs.slots[p].sp = parked;
        },
        None => {
            let _ = save_context(cpu, boot_stack);
        },
    }
    let next_sp: VAddr = procs.slots[sw.next].sp;
    let flushed = restore_context(cpu, &procs.slots[sw.next].stack, next_sp, sie);
    proof {
        let before = *old(procs);
        let after = *procs;
        assert forall|j: int| 0 <= j < 8 implies #[trigger] after.slot_wf(j) by {
            assert(before.slot_wf(j));
        }
        assert forall|j: int| 0 <= j < 8 implies (#[trigger] after.in_use(j) <==> before.in_use(
            j,
        )) by {}
        assert forall|j: int| 0 < j < 8 && #[trigger] after.in_use(j) implies after.in_use(
            j - 1,
        ) by {
            assert(before.in_use(j));
        }
        assert forall|a: int, b: int|
            #[trigger] after.in_use(a) && #[trigger] after.in_use(b) && after.slots[a].pid == 0
                && after.slots[b].pid == 0 implies a == b by {
            assert(before.in_use(a) && before.in_use(b));
        }
        if before.idle_ready() {
            let z = choose|z: int|
                #[trigger] before.in_use(z) && before.slots[z].pid == 0 && before.slots[z].state
                    == State::Runnable;
            assert(after.in_use(z));
        }
        assert forall|layout: MemoryLayout| before.kernel_mapped(layout) implies after.kernel_mapped(
            layout,
        ) by {
            assert forall|j: int|
                0 <= j < 8 && (#[trigger] after.slots[j]).state
                    != State::Unused implies after.slots[j].page_table is Some
                && crate::process::kernel_mapped(after.slots[j].page_table->0, layout) by {
                assert(before.slots[j].state != State::Unused);
            }
        }
        if before.scratch_discipline(slot_of(sw.prev)) && (sw.prev is Some ==> scratch_ok(
            *old(cpu),
            before.slots[sw.prev->0 as int].stack,
        )) {
            assert(before.in_use(sw.next as int));
            assert(before.parked_scratch_ok(sw.next as int));
            assert forall|j: int|
                #[trigger] after.in_use(j) && j != sw.next as int implies after.parked_scratch_ok(
                j,
            ) by {
                assert(before.in_use(j));
                if sw.prev == Some(j as usize) {
                    let image = image_of(*old(cpu));
                    assert(image@[13] == image.word(13));
                } else {
                    assert(before.parked_scratch_ok(j));
                }
            }
        }
    }
    flushed
}

} // verus!
