//! The processor state that belongs to a process, the image in which a
//! process that is not running is parked on its kernel stack, and the switch
//! from one parked process to the next.

use vstd::prelude::*;
use crate::address::VAddr;

verus! {

/// Bytes in a kernel stack, which is 2048 words.
pub const STACK_BYTES: u32 = 8192;
/// Bytes in a parked image, which is 17 words.
pub const IMAGE_BYTES: u32 = 68;

/// Supervisor interrupts enabled.
pub const SSTATUS_SIE: u32 = 0x2;
/// Interrupt enable to be restored on return from the trap.
pub const SSTATUS_SPIE: u32 = 0x20;
/// Supervisor may access user memory.
pub const SSTATUS_SUM: u32 = 0x4_0000;

/// The registers the kernel saves and restores.
#[derive(Clone, Copy, Debug)]
pub struct Cpu {
    pub ra: u32,
    pub sp: u32,
    pub gp: u32,
    pub tp: u32,
    pub t: [u32; 7],
    pub a: [u32; 8],
    pub s: [u32; 12],
    pub sscratch: u32,
    pub sepc: u32,
    pub sstatus: u32,
    pub satp: u32,
    /// The translation root whose entries the translation cache may hold.
    pub tlb_root: u32,
}

impl Cpu {
    /// The translation cache holds nothing of another root than the one in
    /// force.
    pub open spec fn tlb_coherent(&self) -> bool {
        self.tlb_root == self.satp
    }
}

/// The kernel's discipline for the scratch register: it is zero while the
/// kernel runs and holds the top of the running process's kernel stack
/// while user code runs, so that a trap finds the kernel stack either way.
pub open spec fn scratch_ok(cpu: Cpu, stack: KernelStack) -> bool {
    cpu.sscratch == 0 || cpu.sscratch == stack.top()
}

/// What is kept of a process while it does not run, in the order in which
/// the words lie on its stack from the parked stack pointer upwards.
#[derive(Clone, Copy, Debug)]
pub struct ParkedImage {
    pub ra: u32,
    pub s: [u32; 12],
    pub sscratch: u32,
    pub sepc: u32,
    pub sstatus: u32,
    pub satp: u32,
}

impl ParkedImage {
    /// The `k`-th word of the image.
    pub open spec fn word(&self, k: int) -> u32 {
        if k == 0 {
            self.ra
        } else if 1 <= k <= 12 {
            self.s[k - 1]
        } else if k == 13 {
            self.sscratch
        } else if k == 14 {
            self.sepc
        } else if k == 15 {
            self.sstatus
        } else {
            self.satp
        }
    }

    /// The image by its words.
    pub open spec fn view(&self) -> Seq<u32> {
        Seq::new(17, |k: int| self.word(k))
    }
}

/// A kernel stack: where it starts in memory, and its words from the lowest
/// address up.
#[derive(Debug)]
pub struct KernelStack {
    pub base: VAddr,
    pub words: [u32; 2048],
}

impl KernelStack {
    /// The address just past the stack's last word.
    pub open spec fn top(&self) -> int {
        self.base.0 as int + 8192
    }

    pub open spec fn wf(&self) -> bool {
        self.base.0 as int % 4 == 0 && self.top() <= u32::MAX
    }

    /// Whether `sp` is a word address of this stack with at least `words`
    /// words from it to the top.
    pub open spec fn holds(&self, sp: u32, words: int) -> bool {
        &&& self.base.0 <= sp
        &&& sp as int + 4 * words <= self.top()
        &&& (sp as int - self.base.0 as int) % 4 == 0
    }

    /// Index of the word at address `sp`.
    pub open spec fn index_of(&self, sp: u32) -> int {
        (sp as int - self.base.0 as int) / 4
    }

    /// The 17 words from address `sp` on.
    pub open spec fn image_at(&self, sp: u32) -> Seq<u32> {
        self.words@.subrange(self.index_of(sp), self.index_of(sp) + 17)
    }

    /// A zeroed stack at `base`.
    pub fn new(base: VAddr) -> (r: Self)
        ensures
            r.base == base,
            forall|i: int| 0 <= i < 2048 ==> r.words[i] == 0,
    {
        KernelStack { base, words: [0u32; 2048] }
    }

    /// The address just past the stack's last word.
    pub fn top_addr(&self) -> (r: u32)
        requires
            self.wf(),
        ensures
            r == self.top(),
    {
        self.base.0 + STACK_BYTES
    }

    /// Writes `image` into the 17 words from address `sp` on.
    pub fn write_image(&mut self, sp: u32, image: &ParkedImage)
        requires
            old(self).wf(),
            old(self).holds(sp, 17),
        ensures
            final(self).base == old(self).base,
            final(self).image_at(sp) == image@,
            forall|i: int|
                0 <= i < 2048 && !(old(self).index_of(sp) <= i < old(self).index_of(sp) + 17)
                    ==> final(self).words[i] == old(self).words[i],
    {
        let at: usize = ((sp - self.base.0) / 4) as usize;
        self.words[at] = image.ra;
        self.words[at + 1] = image.s[0];
        self.words[at + 2] = image.s[1];
        self.words[at + 3] = image.s[2];
        self.words[at + 4] = image.s[3];
        self.words[at + 5] = image.s[4];
        self.words[at + 6] = image.s[5];
        self.words[at + 7] = image.s[6];
        self.words[at + 8] = image.s[7];
        self.words[at + 9] = image.s[8];
        self.words[at + 10] = image.s[9];
        self.words[at + 11] = image.s[10];
        self.words[at + 12] = image.s[11];
        self.words[at + 13] = image.sscratch;
        self.words[at + 14] = image.sepc;
        self.words[at + 15] = image.sstatus;
        self.words[at + 16] = image.satp;
        assert(self.image_at(sp) =~= image@);
    }

    /// Reads the image that lies in the 17 words from address `sp` on.
    pub fn read_image(&self, sp: u32) -> (r: ParkedImage)
        requires
            self.wf(),
            self.holds(sp, 17),
        ensures
            r@ == self.image_at(sp),
    {
        let at: usize = ((sp - self.base.0) / 4) as usize;
        let r = ParkedImage {
            ra: self.words[at],
            s: [
                self.words[at + 1],
                self.words[at + 2],
                self.words[at + 3],
                self.words[at + 4],
                self.words[at + 5],
                self.words[at + 6],
                self.words[at + 7],
                self.words[at + 8],
                self.words[at + 9],
                self.words[at + 10],
                self.words[at + 11],
                self.words[at + 12],
            ],
            sscratch: self.words[at + 13],
            sepc: self.words[at + 14],
            sstatus: self.words[at + 15],
            satp: self.words[at + 16],
        };
        assert(r@ =~= self.image_at(sp));
        r
    }
}

/// The image that parks the running context: its return address and saved
/// registers, and the four control registers, with interrupts masked in the
/// status word as they are while the switch runs.
pub open spec fn image_of(cpu: Cpu) -> ParkedImage {
    ParkedImage {
        ra: cpu.ra,
        s: cpu.s,
        sscratch: cpu.sscratch,
        sepc: cpu.sepc,
        sstatus: cpu.sstatus & !2u32,
        satp: cpu.satp,
    }
}

/// First half of a switch: masks interrupts, pushes the running context
/// onto its own stack and returns the stack pointer at which it is parked.
pub fn save_context(cpu: &mut Cpu, stack: &mut KernelStack) -> (parked: VAddr)
    requires
        old(stack).wf(),
        old(stack).holds(old(cpu).sp, 0),
        old(cpu).sp as int - 68 >= old(stack).base.0,
    ensures
        parked.0 == old(cpu).sp - 68,
        final(stack).base == old(stack).base,
        final(stack).image_at(parked.0) == image_of(*old(cpu))@,
        forall|i: int|
            0 <= i < 2048 && !(old(stack).index_of(parked.0) <= i < old(stack).index_of(parked.0)
                + 17) ==> final(stack).words[i] == old(stack).words[i],
        *final(cpu) == (Cpu { sp: parked.0, sstatus: old(cpu).sstatus & !2u32, ..*old(cpu) }),
{
    cpu.sstatus = cpu.sstatus & !SSTATUS_SIE;
    cpu.sp = cpu.sp - IMAGE_BYTES;
    let image = ParkedImage {
        ra: cpu.ra,
        s: cpu.s,
        sscratch: cpu.sscratch,
        sepc: cpu.sepc,
        sstatus: cpu.sstatus,
        satp: cpu.satp,
    };
    stack.write_image(cpu.sp, &image);
    VAddr(cpu.sp)
}

/// Whether `after` is the processor that results when the image with the
/// words `w`, parked at `sp`, is resumed from the state `before`; `sie`
/// tells whether interrupts were enabled when the switch began. The
/// registers that a switch does not save are left as they were.
pub open spec fn resumes(before: Cpu, after: Cpu, w: Seq<u32>, sp: u32, sie: bool) -> bool {
    &&& after.ra == w[0]
    &&& forall|j: int| 0 <= j < 12 ==> after.s[j] == w[1 + j]
    &&& after.sscratch == w[13]
    &&& after.sepc == w[14]
    &&& after.sstatus == if sie {
        w[15] | 2u32
    } else {
        w[15]
    }
    &&& after.satp == w[16]
    &&& after.tlb_root == if w[16] != before.satp {
        w[16]
    } else {
        before.tlb_root
    }
    &&& after.sp == sp + 68
    &&& after.gp == before.gp
    &&& after.tp == before.tp
    &&& after.t == before.t
    &&& after.a == before.a
}

/// Second half of a switch: takes up the stack that is parked at `sp`,
/// changes the translation root where it differs, flushing the translation
/// cache with it, pops the image and enables interrupts again if `sie`
/// says they were enabled before. Returns whether the cache was flushed.
pub fn restore_context(cpu: &mut Cpu, stack: &KernelStack, sp: VAddr, sie: bool) -> (flushed: bool)
    requires
        stack.wf(),
        stack.holds(sp.0, 17),
    ensures
        flushed == (old(cpu).satp != stack.image_at(sp.0)[16]),
        resumes(*old(cpu), *final(cpu), stack.image_at(sp.0), sp.0, sie),
        old(cpu).tlb_coherent() ==> final(cpu).tlb_coherent(),
{
    let image = stack.read_image(sp.0);
    proof {
        let w = stack.image_at(sp.0);
        assert(forall|k: int| 0 <= k < 17 ==> image@[k] == image.word(k));
        assert(w[0] == image.ra);
        assert(w[13] == image.sscratch);
        assert(w[14] == image.sepc);
        assert(w[15] == image.sstatus);
        assert(w[16] == image.satp);
        assert forall|j: int| 0 <= j < 12 implies image.s[j] == w[1 + j] by {
            assert(image@[1 + j] == image.word(1 + j));
        }
    }
    let flushed = image.satp != cpu.satp;
    if flushed {
        cpu.satp = image.satp;
        cpu.tlb_root = image.satp;
    }
    cpu.sscratch = image.sscratch;
    cpu.sepc = image.sepc;
    cpu.sstatus = image.sstatus;
    cpu.ra = image.ra;
    cpu.s = image.s;
    cpu.sp = sp.0 + IMAGE_BYTES;
    if sie {
        cpu.sstatus = cpu.sstatus | SSTATUS_SIE;
    }
    flushed
}

/// Parks the running context on `prev_stack`, leaving its stack pointer in
/// `prev_sp`, and resumes the context parked at `next_sp` on `next_stack`.
/// Interrupts are masked throughout and enabled at the end if they were
/// enabled at the start. Returns whether the translation cache was flushed,
/// which happens exactly when the translation root changes.
pub fn switch_context(
    cpu: &mut Cpu,
    prev_stack: &mut KernelStack,
    prev_sp: &mut VAddr,
    next_stack: &KernelStack,
    next_sp: &VAddr,
) -> (flushed: bool)
    requires
        old(prev_stack).wf(),
        old(prev_stack).holds(old(cpu).sp, 0),
        old(cpu).sp as int - 68 >= old(prev_stack).base.0,
        next_stack.wf(),
        next_stack.holds(next_sp.0, 17),
    ensures
        final(prev_sp).0 == old(cpu).sp - 68,
        final(prev_stack).base == old(prev_stack).base,
        final(prev_stack).image_at(final(prev_sp).0) == image_of(*old(cpu))@,
        forall|i: int|
            0 <= i < 2048 && !(old(prev_stack).index_of(final(prev_sp).0) <= i < old(
                prev_stack,
            ).index_of(final(prev_sp).0) + 17) ==> final(prev_stack).words[i] == old(
                prev_stack,
            ).words[i],
        resumes(
            *old(cpu),
            *final(cpu),
            next_stack.image_at(next_sp.0),
            next_sp.0,
            old(cpu).sstatus & 2u32 != 0u32,
        ),
        flushed == (old(cpu).satp != next_stack.image_at(next_sp.0)[16]),
        old(cpu).tlb_coherent() ==> final(cpu).tlb_coherent(),
{
    let sie: bool = cpu.sstatus & SSTATUS_SIE != 0;
    let parked = save_context(cpu, prev_stack);
    *prev_sp = parked;
    restore_context(cpu, next_stack, *next_sp, sie)
}

/// A context that is parked and later resumed comes back as it was parked:
/// with its return address, its saved registers, its exception address and
/// its scratch register. So a context parked while the kernel ran, when the
/// scratch register is zero, finds it zero again after the switch to it.
pub proof fn lemma_resume_restores(parked: Cpu, before: Cpu, after: Cpu, sp: u32, sie: bool)
    requires
        resumes(before, after, image_of(parked)@, sp, sie),
    ensures
        after.ra == parked.ra,
        after.s@ == parked.s@,
        after.sepc == parked.sepc,
        after.satp == parked.satp,
        after.sscratch == parked.sscratch,
        parked.sscratch == 0 ==> after.sscratch == 0,
{
    let image = image_of(parked);
    let w = image@;
    assert(w[0] == image.word(0));
    assert(w[13] == image.word(13));
    assert(w[14] == image.word(14));
    assert(w[16] == image.word(16));
    assert forall|j: int| 0 <= j < 12 implies after.s@[j] == parked.s@[j] by {
        assert(w[1 + j] == image.word(1 + j));
    }
    assert(after.s@ =~= parked.s@);
}

/// The translation cache is flushed whenever a switch changes the
/// translation root: if it held nothing of another root than the one in
/// force before the switch, it holds nothing of another root after it.
pub proof fn lemma_switch_flushes(before: Cpu, after: Cpu, w: Seq<u32>, sp: u32, sie: bool)
    requires
        resumes(before, after, w, sp, sie),
        before.tlb_coherent(),
    ensures
        after.tlb_coherent(),
        after.satp != before.satp ==> after.tlb_root == after.satp,
{
}

} // verus!
