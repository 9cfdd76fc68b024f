use rv32_kernel::address::{PAddr, VAddr};
use rv32_kernel::allocator::BumpAllocator;
use rv32_kernel::context::{
    restore_context, save_context, switch_context, Cpu, KernelStack, ParkedImage,
};
use rv32_kernel::page::walk_page_table;
use rv32_kernel::process::{
    create_process, pages_for_process, MemoryLayout, Process, Procs, State, IDLE_PID, PROCS_MAX,
    USER_BASE,
};
use rv32_kernel::scheduler::{exit_current, run_switch, yield_now, Scheduler, Switch};

const STACKS: u32 = 0x8100_0000;
const SSTATUS: u32 = 0x0000_0022;

fn layout() -> MemoryLayout {
    MemoryLayout {
        kernel_base: PAddr::new(0x8020_0000),
        free_ram_end: PAddr::new(0x8420_0000),
        virtio_blk: PAddr::new(0x1000_1000),
    }
}

fn arena() -> BumpAllocator {
    BumpAllocator::new(PAddr::new(0x8030_0000), PAddr::new(0x8420_0000))
}

fn cpu_on(sp: u32) -> Cpu {
    Cpu {
        ra: 0x8020_0abc,
        sp,
        gp: 3,
        tp: 4,
        t: [10, 11, 12, 13, 14, 15, 16],
        a: [20, 21, 22, 23, 24, 25, 26, 27],
        s: [100, 101, 102, 103, 104, 105, 106, 107, 108, 109, 110, 111],
        sscratch: 0,
        sepc: 0x0100_0040,
        sstatus: 0x0004_0122,
        satp: 0x8008_0300,
        tlb_root: 0x8008_0300,
    }
}

/// A scheduler with the idle process and `kernel` kernel processes.
fn booted(kernel: usize, a: &mut BumpAllocator) -> Scheduler {
    let mut sched = Scheduler::new(VAddr::new(STACKS));
    sched.scheduler_init(a, &layout(), SSTATUS, 0x8020_0100);
    for k in 0..kernel {
        let pid = create_process(
            &mut sched.procs,
            a,
            &layout(),
            SSTATUS,
            0x8020_1000 + 0x100 * k as u32,
            &Vec::new(),
        );
        assert_eq!(pid, k + 2);
    }
    sched
}

#[test]
fn empty_slot() {
    let p = Process::empty(VAddr::new(0x8100_4000));
    assert_eq!(p.pid, 0);
    assert_eq!(p.state, State::Unused);
    assert!(!p.is_kernel);
    assert_eq!(p.sp, VAddr::new(0));
    assert!(p.page_table.is_none());
    assert_eq!(p.stack.base, VAddr::new(0x8100_4000));
    assert!(p.stack.words.iter().all(|w| *w == 0));
    assert!(p.image.is_empty());
}

#[test]
fn new_table_is_unused() {
    let procs = Procs::new(VAddr::new(STACKS));
    assert_eq!(procs.slots.len(), PROCS_MAX);
    for (i, p) in procs.slots.iter().enumerate() {
        assert_eq!(p.state, State::Unused);
        assert_eq!(p.pid, 0);
        assert_eq!(p.stack.base, VAddr::new(STACKS + 8192 * i as u32));
    }
    assert!(procs.has_free_slot());
    assert_eq!(procs.find_free_slot(), Some(0));
    // Every unused slot has pid 0; the first of them is found.
    assert_eq!(procs.try_get_index(0), Some(0));
    assert_eq!(procs.try_get_index(1), None);
}

#[test]
fn pages_a_process_takes() {
    // Root, 17 tables for the kernel's 16384 pages, one for the device.
    assert_eq!(pages_for_process(&layout(), 0), 19);
    // Two pages of image and the table for them on top.
    assert_eq!(pages_for_process(&layout(), 5000), 22);
    assert_eq!(pages_for_process(&layout(), 4096), 21);
    // 1025 pages of image lie under two root entries.
    assert_eq!(pages_for_process(&layout(), 1024 * 4096 + 1), 19 + 1025 + 2);
}

#[test]
fn create_kernel_process() {
    let mut a = arena();
    let mut procs = Procs::new(VAddr::new(STACKS));
    let pid = create_process(&mut procs, &mut a, &layout(), SSTATUS, 0x8020_1234, &Vec::new());
    assert_eq!(pid, 1);
    let p = &procs.slots[0];
    assert_eq!(p.pid, 1);
    assert_eq!(p.state, State::Runnable);
    assert!(p.is_kernel);
    assert_eq!(p.sp, VAddr::new(STACKS + 8192 - 68));
    assert!(p.image.is_empty());
    let image = p.stack.read_image(p.sp.as_u32());
    assert_eq!(image.ra, 0x8020_1234);
    assert_eq!(image.s, [0; 12]);
    assert_eq!(image.sscratch, 0);
    assert_eq!(image.sepc, 0);
    assert_eq!(image.sstatus, SSTATUS);
    assert_eq!(image.satp, 0x8008_0300);
    // The image is the stack's top 17 words, the rest is untouched.
    assert_eq!(p.stack.words[2031], 0x8020_1234);
    assert_eq!(p.stack.words[2047], 0x8008_0300);
    assert!(p.stack.words[..2031].iter().all(|w| *w == 0));

    let space = p.page_table.as_ref().unwrap();
    assert_eq!(space.root_addr, PAddr::new(0x8030_0000));
    assert_eq!(
        walk_page_table(space, VAddr::new(0x8020_0000)),
        Some((PAddr::new(0x8020_0000), 0xf))
    );
    assert_eq!(
        walk_page_table(space, VAddr::new(0x841f_ffff)),
        Some((PAddr::new(0x841f_f000), 0xf))
    );
    assert_eq!(walk_page_table(space, VAddr::new(0x8420_0000)), None);
    assert_eq!(walk_page_table(space, VAddr::new(0x801f_f000)), None);
    assert_eq!(
        walk_page_table(space, VAddr::new(0x1000_1004)),
        Some((PAddr::new(0x1000_1000), 0x7))
    );
    assert_eq!(walk_page_table(space, VAddr::new(0x1000_2000)), None);
    assert_eq!(walk_page_table(space, VAddr::new(USER_BASE)), None);
    assert_eq!(a.next, Some(PAddr::new(0x8030_0000 + 19 * 4096)));
    assert_eq!(procs.slots[1].state, State::Unused);
}

#[test]
fn create_user_process() {
    let mut a = arena();
    let mut procs = Procs::new(VAddr::new(STACKS));
    let _ = create_process(&mut procs, &mut a, &layout(), SSTATUS, 0x8020_1234, &Vec::new());
    let image: Vec<u8> = (0..5000u32).map(|i| (i % 251) as u8).collect();
    let pid = create_process(&mut procs, &mut a, &layout(), SSTATUS, 0x8020_2000, &image);
    assert_eq!(pid, 2);
    let p = &procs.slots[1];
    assert_eq!(p.pid, 2);
    assert_eq!(p.state, State::Runnable);
    assert!(!p.is_kernel);
    let top = STACKS + 2 * 8192;
    assert_eq!(p.sp, VAddr::new(top - 68));
    let parked = p.stack.read_image(p.sp.as_u32());
    assert_eq!(parked.ra, 0x8020_2000);
    assert_eq!(parked.s, [0; 12]);
    assert_eq!(parked.sscratch, top);
    assert_eq!(parked.sepc, 0x0100_0000);
    assert_eq!(parked.sstatus, SSTATUS | 0x4_0000);
    assert_eq!(parked.satp, 0x8000_0000 | (0x8031_3000 >> 12));

    // The image's copy is filled up with zeros to whole pages.
    assert_eq!(p.image.len(), 8192);
    assert_eq!(&p.image[..5000], &image[..]);
    assert!(p.image[5000..].iter().all(|b| *b == 0));
    assert_eq!(p.image_addr, PAddr::new(0x8032_6000));

    let space = p.page_table.as_ref().unwrap();
    assert_eq!(space.root_addr, PAddr::new(0x8031_3000));
    assert_eq!(
        walk_page_table(space, VAddr::new(0x0100_085e)),
        Some((PAddr::new(0x8032_6000), 0x1f))
    );
    assert_eq!(
        walk_page_table(space, VAddr::new(0x0100_1000)),
        Some((PAddr::new(0x8032_7000), 0x1f))
    );
    assert_eq!(walk_page_table(space, VAddr::new(0x0100_2000)), None);
    assert_eq!(
        walk_page_table(space, VAddr::new(0x8020_0000)),
        Some((PAddr::new(0x8020_0000), 0xf))
    );
    assert_eq!(
        walk_page_table(space, VAddr::new(0x1000_1000)),
        Some((PAddr::new(0x1000_1000), 0x7))
    );
    assert_eq!(a.next, Some(PAddr::new(0x8032_9000)));
    // The first process is as it was.
    assert_eq!(procs.slots[0].pid, 1);
    assert_eq!(procs.slots[0].sp, VAddr::new(STACKS + 8192 - 68));
}

#[test]
fn table_is_full_after_eight_processes() {
    let mut a = arena();
    let mut procs = Procs::new(VAddr::new(STACKS));
    for k in 0..PROCS_MAX {
        assert!(procs.has_free_slot());
        assert_eq!(procs.find_free_slot(), Some(k));
        let pid = create_process(&mut procs, &mut a, &layout(), SSTATUS, 0x8020_1000, &Vec::new());
        assert_eq!(pid, k + 1);
    }
    assert!(!procs.has_free_slot());
    assert_eq!(procs.find_free_slot(), None);
    assert_eq!(procs.try_get_index(8), Some(7));
    assert_eq!(procs.try_get_index(9), None);
    assert_eq!(procs.try_get_index(0), None);
}

#[test]
fn memory_runs_out_for_a_process() {
    // Room for the 19 pages of one kernel process and no more.
    let mut a = BumpAllocator::new(PAddr::new(0x8030_0000), PAddr::new(0x8030_0000 + 19 * 4096));
    assert!(a.pages_left() as u64 >= pages_for_process(&layout(), 0));
    let mut procs = Procs::new(VAddr::new(STACKS));
    let _ = create_process(&mut procs, &mut a, &layout(), SSTATUS, 0x8020_1000, &Vec::new());
    assert_eq!(a.pages_left(), 0);
    assert!((a.pages_left() as u64) < pages_for_process(&layout(), 0));
    assert!(!a.can_alloc(1));
}

#[test]
fn scheduler_init_makes_the_idle_process() {
    let mut a = arena();
    let sched = booted(0, &mut a);
    assert_eq!(sched.current_proc, Some(IDLE_PID));
    assert_eq!(sched.idle_proc, Some(IDLE_PID));
    assert!(sched.first_boot);
    let idle = &sched.procs.slots[0];
    assert_eq!(idle.pid, 0);
    assert_eq!(idle.state, State::Runnable);
    assert!(idle.is_kernel);
    assert_eq!(idle.stack.read_image(idle.sp.as_u32()).ra, 0x8020_0100);
    assert!(idle.page_table.is_some());
    // One slot in use has pid 0.
    let idle_slots = sched
        .procs
        .slots
        .iter()
        .filter(|p| p.state != State::Unused && p.pid == 0)
        .count();
    assert_eq!(idle_slots, 1);
    assert_eq!(sched.procs.try_get_index(0), Some(0));
}

#[test]
fn get_next_goes_round_the_table() {
    let mut a = arena();
    let mut sched = booted(3, &mut a);
    // Slots: idle (pid 0), pids 2, 3, 4.
    assert_eq!(sched.procs.get_next(0), 2);
    assert_eq!(sched.procs.get_next(2), 3);
    assert_eq!(sched.procs.get_next(3), 4);
    assert_eq!(sched.procs.get_next(4), 2);
    sched.procs.slots[2].state = State::Exited;
    assert_eq!(sched.procs.get_next(2), 4);
    assert_eq!(sched.procs.get_next(4), 2);
    assert_eq!(sched.procs.get_next(3), 4);
    sched.procs.slots[1].state = State::Exited;
    assert_eq!(sched.procs.get_next(4), 4);
    sched.procs.slots[3].state = State::Exited;
    assert_eq!(sched.procs.get_next(4), IDLE_PID);
    assert_eq!(sched.procs.get_next(0), IDLE_PID);
}

#[test]
fn two_processes_alternate() {
    let mut a = arena();
    let mut sched = booted(2, &mut a);
    let first = yield_now(&mut sched);
    // The context the machine booted in is not parked in any slot.
    assert_eq!(first, Some(Switch { prev: None, next: 1, satp: 0x8000_0000 | (0x8031_3000 >> 12) }));
    assert_eq!(sched.current_proc, Some(2));
    assert!(!sched.first_boot);
    let second = yield_now(&mut sched);
    assert_eq!(
        second,
        Some(Switch { prev: Some(1), next: 2, satp: 0x8000_0000 | (0x8032_6000 >> 12) })
    );
    assert_eq!(sched.current_proc, Some(3));
    let third = yield_now(&mut sched);
    assert_eq!(
        third,
        Some(Switch { prev: Some(2), next: 1, satp: 0x8000_0000 | (0x8031_3000 >> 12) })
    );
    assert_eq!(sched.current_proc, Some(2));
    for round in 0..6 {
        let sw = yield_now(&mut sched).unwrap();
        assert_eq!(sw.next, if round % 2 == 0 { 2 } else { 1 });
    }
}

#[test]
fn sole_runnable_process_keeps_running() {
    let mut a = arena();
    let mut sched = booted(1, &mut a);
    assert!(yield_now(&mut sched).is_some());
    assert_eq!(sched.current_proc, Some(2));
    assert_eq!(yield_now(&mut sched), None);
    assert_eq!(sched.current_proc, Some(2));
    assert!(!sched.first_boot);
    assert_eq!(yield_now(&mut sched), None);
    assert_eq!(sched.current_proc, Some(2));
}

#[test]
fn idle_alone_keeps_running() {
    let mut a = arena();
    let mut sched = booted(0, &mut a);
    assert_eq!(yield_now(&mut sched), None);
    assert_eq!(sched.current_proc, Some(0));
    assert!(sched.first_boot);
}

#[test]
fn exit_falls_back_to_idle() {
    let mut a = arena();
    let mut sched = booted(1, &mut a);
    let _ = yield_now(&mut sched);
    assert_eq!(sched.current_proc, Some(2));
    exit_current(&mut sched);
    assert_eq!(sched.procs.slots[1].state, State::Exited);
    assert_eq!(sched.procs.slots[1].pid, 2);
    assert_eq!(sched.procs.slots[0].state, State::Runnable);
    assert_eq!(sched.current_proc, Some(2));
    let sw = yield_now(&mut sched);
    assert_eq!(sw, Some(Switch { prev: Some(1), next: 0, satp: 0x8008_0300 }));
    assert_eq!(sched.current_proc, Some(IDLE_PID));
    // An exited slot is not given out again.
    assert_eq!(sched.procs.find_free_slot(), Some(2));
}

#[test]
fn save_then_restore_gives_the_context_back() {
    let mut stack = KernelStack::new(VAddr::new(STACKS));
    let mut cpu = cpu_on(STACKS + 8192 - 256);
    let before = cpu;
    let parked = save_context(&mut cpu, &mut stack);
    assert_eq!(parked, VAddr::new(STACKS + 8192 - 256 - 68));
    assert_eq!(cpu.sp, parked.as_u32());
    // Interrupts are masked while the switch runs.
    assert_eq!(cpu.sstatus, 0x0004_0120);
    let image: ParkedImage = stack.read_image(parked.as_u32());
    assert_eq!(image.ra, before.ra);
    assert_eq!(image.s, before.s);
    assert_eq!(image.sscratch, 0);
    assert_eq!(image.sepc, before.sepc);
    assert_eq!(image.sstatus, 0x0004_0120);
    assert_eq!(image.satp, before.satp);
    let at = (8192 - 256 - 68) / 4;
    assert_eq!(stack.words[at], before.ra);
    assert_eq!(stack.words[at + 1], 100);
    assert_eq!(stack.words[at + 12], 111);
    assert_eq!(stack.words[at + 16], before.satp);
    assert_eq!(stack.words[at - 1], 0);
    assert_eq!(stack.words[at + 17], 0);

    let mut other = cpu_on(0x9000_0000);
    other.ra = 1;
    other.s = [0; 12];
    other.sscratch = 0x55;
    other.sepc = 2;
    other.sstatus = 0;
    let flushed = restore_context(&mut other, &stack, parked, true);
    assert!(!flushed);
    assert_eq!(other.ra, before.ra);
    assert_eq!(other.s, before.s);
    assert_eq!(other.sp, before.sp);
    assert_eq!(other.sscratch, 0);
    assert_eq!(other.sepc, before.sepc);
    assert_eq!(other.sstatus, before.sstatus);
    assert_eq!(other.satp, before.satp);
    // Without the latch interrupts stay masked.
    let mut masked = cpu_on(0x9000_0000);
    let _ = restore_context(&mut masked, &stack, parked, false);
    assert_eq!(masked.sstatus, 0x0004_0120);
}

#[test]
fn switch_context_flushes_when_the_root_changes() {
    let mut prev_stack = KernelStack::new(VAddr::new(STACKS));
    let mut next_stack = KernelStack::new(VAddr::new(STACKS + 8192));
    let next_sp = VAddr::new(STACKS + 2 * 8192 - 68);
    let image = ParkedImage {
        ra: 0x8020_4444,
        s: [1, 2, 3, 4, 5, 6, 7, 8, 9, 10, 11, 12],
        sscratch: 0,
        sepc: 0x77,
        sstatus: 0x100,
        satp: 0x8008_0999,
    };
    next_stack.write_image(next_sp.as_u32(), &image);
    let mut cpu = cpu_on(STACKS + 8192);
    let mut prev_sp = VAddr::new(0);
    let flushed = switch_context(&mut cpu, &mut prev_stack, &mut prev_sp, &next_stack, &next_sp);
    assert!(flushed);
    assert_eq!(prev_sp, VAddr::new(STACKS + 8192 - 68));
    assert_eq!(prev_stack.read_image(prev_sp.as_u32()).ra, 0x8020_0abc);
    assert_eq!(cpu.ra, 0x8020_4444);
    assert_eq!(cpu.s, [1, 2, 3, 4, 5, 6, 7, 8, 9, 10, 11, 12]);
    assert_eq!(cpu.sp, STACKS + 2 * 8192);
    assert_eq!(cpu.sscratch, 0);
    assert_eq!(cpu.sepc, 0x77);
    // Interrupts were enabled before the switch and are again after it.
    assert_eq!(cpu.sstatus, 0x102);
    assert_eq!(cpu.satp, 0x8008_0999);
    assert_eq!(cpu.tlb_root, 0x8008_0999);
    // Registers that a switch does not save stay.
    assert_eq!(cpu.gp, 3);
    assert_eq!(cpu.a, [20, 21, 22, 23, 24, 25, 26, 27]);

    // Back again: the same root as before is a change once more.
    let mut back_sp = VAddr::new(0);
    let mut scratch = KernelStack::new(VAddr::new(STACKS + 4 * 8192));
    cpu.sp = STACKS + 5 * 8192;
    cpu.sstatus = 0x100;
    let flushed = switch_context(&mut cpu, &mut scratch, &mut back_sp, &prev_stack, &prev_sp);
    assert!(flushed);
    assert_eq!(cpu.satp, 0x8008_0300);
    assert_eq!(cpu.ra, 0x8020_0abc);
    assert_eq!(cpu.sp, STACKS + 8192);
    // Interrupts were masked before this switch and stay so.
    assert_eq!(cpu.sstatus, 0x0004_0120);
}

#[test]
fn switch_between_equal_roots_does_not_flush() {
    let mut prev_stack = KernelStack::new(VAddr::new(STACKS));
    let mut next_stack = KernelStack::new(VAddr::new(STACKS + 8192));
    let next_sp = VAddr::new(STACKS + 8192 + 400);
    let image = ParkedImage {
        ra: 9,
        s: [0; 12],
        sscratch: 0,
        sepc: 0,
        sstatus: 0,
        satp: 0x8008_0300,
    };
    next_stack.write_image(next_sp.as_u32(), &image);
    let mut cpu = cpu_on(STACKS + 4096);
    cpu.tlb_root = 0x8008_0300;
    let mut prev_sp = VAddr::new(0);
    let flushed = switch_context(&mut cpu, &mut prev_stack, &mut prev_sp, &next_stack, &next_sp);
    assert!(!flushed);
    assert_eq!(cpu.satp, 0x8008_0300);
    assert_eq!(cpu.tlb_root, 0x8008_0300);
    assert_eq!(cpu.sp, STACKS + 8192 + 400 + 68);
}

#[test]
fn first_switch_enters_the_process() {
    let mut a = arena();
    let mut sched = booted(1, &mut a);
    let image: Vec<u8> = vec![0x13; 100];
    let pid = create_process(&mut sched.procs, &mut a, &layout(), 0x22, 0x8020_3000, &image);
    assert_eq!(pid, 3);

    let mut boot_stack = KernelStack::new(VAddr::new(0x8200_0000));
    let mut cpu = cpu_on(0x8200_2000);
    cpu.sstatus = 0x22;

    // From the boot context to the kernel process in slot 1.
    let sw = yield_now(&mut sched).unwrap();
    assert_eq!(sw.prev, None);
    assert_eq!(sw.next, 1);
    let flushed = run_switch(&mut sched.procs, &mut cpu, &mut boot_stack, sw);
    assert_eq!(flushed, sw.satp != 0x8008_0300);
    assert_eq!(cpu.ra, 0x8020_1000);
    assert_eq!(cpu.s, [0; 12]);
    assert_eq!(cpu.sp, STACKS + 2 * 8192);
    assert_eq!(cpu.sscratch, 0);
    assert_eq!(cpu.sstatus & 0x4_0000, 0);
    assert_eq!(cpu.satp, sw.satp);
    assert_eq!(cpu.tlb_root, cpu.satp);
    // The boot context went to the boot stack, not to a slot.
    assert_eq!(boot_stack.read_image(0x8200_2000 - 68).ra, 0x8020_0abc);
    assert_eq!(sched.procs.slots[0].sp, VAddr::new(STACKS + 8192 - 68));

    // On to the user process in slot 2: the kernel process is parked
    // inside its own stack.
    cpu.sp -= 64;
    cpu.ra = 0x8020_1111;
    let sw = yield_now(&mut sched).unwrap();
    assert_eq!(sw.prev, Some(1));
    assert_eq!(sw.next, 2);
    let flushed = run_switch(&mut sched.procs, &mut cpu, &mut boot_stack, sw);
    assert!(flushed);
    assert_eq!(cpu.ra, 0x8020_3000);
    assert_eq!(cpu.sepc, USER_BASE);
    assert_eq!(cpu.sscratch, STACKS + 3 * 8192);
    assert_ne!(cpu.sstatus & 0x4_0000, 0);
    assert_eq!(cpu.satp, sw.satp);
    let parked = &sched.procs.slots[1];
    assert_eq!(parked.sp, VAddr::new(STACKS + 2 * 8192 - 64 - 68));
    assert!(parked.stack.base.as_u32() <= parked.sp.as_u32());
    assert!(parked.sp.as_u32() + 68 <= parked.stack.base.as_u32() + 8192);
    assert_eq!(parked.stack.read_image(parked.sp.as_u32()).ra, 0x8020_1111);

    // And round to the kernel process again, which goes on where it was.
    cpu.sp -= 128;
    let sw = yield_now(&mut sched).unwrap();
    assert_eq!(sw, Switch { prev: Some(2), next: 1, satp: 0x8000_0000 | (0x8031_3000 >> 12) });
    let _ = run_switch(&mut sched.procs, &mut cpu, &mut boot_stack, sw);
    assert_eq!(cpu.ra, 0x8020_1111);
    assert_eq!(cpu.sp, STACKS + 2 * 8192 - 64);
    assert_eq!(cpu.sscratch, 0);
}

#[test]
fn parked_scratch_registers_keep_the_discipline() {
    let mut a = arena();
    let mut sched = booted(1, &mut a);
    let image: Vec<u8> = vec![0x13; 100];
    let _ = create_process(&mut sched.procs, &mut a, &layout(), 0x22, 0x8020_3000, &image);
    let mut boot_stack = KernelStack::new(VAddr::new(0x8200_0000));
    let mut cpu = cpu_on(0x8200_2000);
    for _ in 0..7 {
        let sw = yield_now(&mut sched).unwrap();
        let _ = run_switch(&mut sched.procs, &mut cpu, &mut boot_stack, sw);
        let running = &sched.procs.slots[sw.next];
        let top = running.stack.base.as_u32() + 8192;
        assert!(cpu.sscratch == 0 || cpu.sscratch == top);
        for (i, p) in sched.procs.slots.iter().enumerate() {
            if p.state != State::Unused && i != sw.next {
                let parked = p.stack.read_image(p.sp.as_u32());
                let top = p.stack.base.as_u32() + 8192;
                assert!(parked.sscratch == 0 || parked.sscratch == top);
                assert!(p.stack.base.as_u32() <= p.sp.as_u32());
                assert!(p.sp.as_u32() + 68 <= top);
            }
        }
        // The process runs for a while on its own stack, in the kernel.
        cpu.sp -= 32;
        cpu.sscratch = 0;
    }
}
