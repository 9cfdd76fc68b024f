//! Traps: the frame in which the registers are kept while the kernel
//! handles one, entering and leaving the kernel, telling the causes apart,
//! and the system calls.

use vstd::prelude::*;
use crate::address::VAddr;
use crate::context::{Cpu, KernelStack, SSTATUS_SIE, SSTATUS_SPIE, SSTATUS_SUM};
use crate::files::{read_bytes, written, Files};
use crate::process::USER_BASE;
use crate::scheduler::{exit_current, exited, Scheduler};
use crate::timer::QUANTUM_MS;

verus! {

/// Cause of a trap: system call from user mode.
pub const SCAUSE_ECALL: u32 = 8;
/// Cause of a trap: the supervisor's timer.
pub const SCAUSE_TIMER_INTERRUPT: u32 = 0x8000_0005;

/// System call: write a byte to the console.
pub const SYS_PUTBYTE: u32 = 1;
/// System call: read a byte from the console.
pub const SYS_GETCHAR: u32 = 2;
/// System call: end the process.
pub const SYS_EXIT: u32 = 3;
/// System call: read a file.
pub const SYS_READFILE: u32 = 4;
/// System call: write a file.
pub const SYS_WRITEFILE: u32 = 5;
/// What a file call returns where no file has the name.
pub const NO_SUCH_FILE: u32 = 0xffff_ffff;
/// Bytes in a trap frame.
pub const FRAME_BYTES: u32 = 128;

/// The registers as they stood when the trap was taken, in the order in
/// which they lie on the kernel stack: 32 words.
#[derive(Clone, Copy, Debug)]
pub struct TrapFrame {
    pub ra: u32,
    pub gp: u32,
    pub tp: u32,
    pub t: [u32; 7],
    pub a: [u32; 8],
    pub s: [u32; 12],
    pub sp: u32,
    pub sscratch: u32,
}

impl TrapFrame {
    /// The frame by its words.
    pub open spec fn view(&self) -> Seq<u32> {
        seq![self.ra, self.gp, self.tp].add(self.t@).add(self.a@).add(self.s@).add(
            seq![self.sp, self.sscratch],
        )
    }

    /// The frame as the 32 words that lie on the stack.
    pub fn to_words(&self) -> (w: [u32; 32])
        ensures
            w@ == self@,
    {
        let w: [u32; 32] = [
            self.ra,
            self.gp,
            self.tp,
            self.t[0],
            self.t[1],
            self.t[2],
            self.t[3],
            self.t[4],
            self.t[5],
            self.t[6],
            self.a[0],
            self.a[1],
            self.a[2],
            self.a[3],
            self.a[4],
            self.a[5],
            self.a[6],
            self.a[7],
            self.s[0],
            self.s[1],
            self.s[2],
            self.s[3],
            self.s[4],
            self.s[5],
            self.s[6],
            self.s[7],
            self.s[8],
            self.s[9],
            self.s[10],
            self.s[11],
            self.sp,
            self.sscratch,
        ];
        assert(w@ =~= self@);
        w
    }

    /// The frame that lies on the stack as the 32 words `w`.
    pub fn from_words(w: &[u32; 32]) -> (f: Self)
        ensures
            f@ == w@,
    {
        let f = TrapFrame {
            ra: w[0],
            gp: w[1],
            tp: w[2],
            t: [w[3], w[4], w[5], w[6], w[7], w[8], w[9]],
            a: [w[10], w[11], w[12], w[13], w[14], w[15], w[16], w[17]],
            s: [w[18], w[19], w[20], w[21], w[22], w[23], w[24], w[25], w[26], w[27], w[28], w[29]],
            sp: w[30],
            sscratch: w[31],
        };
        assert(f@ =~= w@);
        f
    }

    /// Whether `self` is `before` with `value` in the first argument
    /// register and nothing else changed.
    pub open spec fn answers(&self, before: TrapFrame, value: u32) -> bool {
        &&& *self == (TrapFrame { a: self.a, ..before })
        &&& self.a[0] == value
        &&& forall|j: int| 1 <= j < 8 ==> self.a[j] == before.a[j]
    }
}

/// The kernel stack pointer on which a trap taken in the state `cpu` is
/// handled: the scratch register where it is set, which it is while user
/// code runs, and the stack pointer itself while the kernel runs.
pub open spec fn kernel_sp(cpu: Cpu) -> u32 {
    if cpu.sscratch != 0 {
        cpu.sscratch
    } else {
        cpu.sp
    }
}

/// The frame that entering the kernel in the state `cpu` saves.
pub open spec fn frame_of(cpu: Cpu) -> TrapFrame {
    TrapFrame {
        ra: cpu.ra,
        gp: cpu.gp,
        tp: cpu.tp,
        t: cpu.t,
        a: cpu.a,
        s: cpu.s,
        sp: cpu.sp,
        sscratch: cpu.sscratch,
    }
}

/// The status word with interrupts masked and the bit that enabled them
/// kept in the place from which leaving the kernel takes it.
pub open spec fn latched(sstatus: u32) -> u32 {
    (sstatus & !0x22u32) | ((sstatus & 2u32) << 4u32)
}

/// The status word with interrupts enabled or masked as the kept bit says.
pub open spec fn unlatched(sstatus: u32) -> u32 {
    (sstatus & !2u32) | ((sstatus & 0x20u32) >> 4u32)
}

/// The processor once the kernel has been entered from the state `cpu`.
pub open spec fn entered(cpu: Cpu) -> Cpu {
    Cpu {
        sp: (kernel_sp(cpu) - 128) as u32,
        sscratch: 0,
        sstatus: latched(cpu.sstatus),
        ..cpu
    }
}

/// The processor once the kernel has been left through the frame `f`.
pub open spec fn returned(cpu: Cpu, f: TrapFrame) -> Cpu {
    Cpu {
        ra: f.ra,
        gp: f.gp,
        tp: f.tp,
        t: f.t,
        a: f.a,
        s: f.s,
        sp: f.sp,
        sscratch: f.sscratch,
        sstatus: unlatched(cpu.sstatus),
        ..cpu
    }
}

/// While the kernel handles a trap the scratch register is zero and
/// interrupts start out masked. Leaving through the frame that was saved
/// on entry puts every register back, the stack pointer and the scratch
/// register with them, so that after a trap from user mode the scratch
/// register holds the kernel stack's top again; and interrupts are enabled
/// after it exactly if they were before the trap, whether or not the
/// handler enabled them meanwhile. Of the status word only the bit that
/// keeps the interrupt enable over the trap may differ.
pub proof fn lemma_trap_round_trip(cpu: Cpu)
    ensures
        entered(cpu).sscratch == 0,
        entered(cpu).sstatus & 2u32 == 0u32,
        returned(entered(cpu), frame_of(cpu)) == (Cpu {
            sstatus: unlatched(latched(cpu.sstatus)),
            ..cpu
        }),
        unlatched(latched(cpu.sstatus)) & !0x20u32 == cpu.sstatus & !0x20u32,
        unlatched(latched(cpu.sstatus) | 2u32) & 2u32 == cpu.sstatus & 2u32,
{
    let x: u32 = cpu.sstatus;
    assert(((x & !0x22u32) | ((x & 2u32) << 4u32)) & 2u32 == 0u32) by (bit_vector);
    assert(((((x & !0x22u32) | ((x & 2u32) << 4u32)) & !2u32) | ((((x & !0x22u32) | ((x & 2u32)
        << 4u32)) & 0x20u32) >> 4u32)) & !0x20u32 == x & !0x20u32) by (bit_vector);
    assert((((((x & !0x22u32) | ((x & 2u32) << 4u32)) | 2u32) & !2u32) | (((((x & !0x22u32) | ((x
        & 2u32) << 4u32)) | 2u32) & 0x20u32) >> 4u32)) & 2u32 == x & 2u32) by (bit_vector);
}

/// The 32 words of `stack` from address `sp` on.
pub open spec fn frame_at(stack: KernelStack, sp: u32) -> Seq<u32> {
    stack.words@.subrange(stack.index_of(sp), stack.index_of(sp) + 32)
}

/// Writes the frame `f` into the 32 words of `stack` from address `sp` on.
pub fn write_frame(stack: &mut KernelStack, sp: u32, f: &TrapFrame)
    requires
        old(stack).wf(),
        old(stack).holds(sp, 32),
    ensures
        final(stack).base == old(stack).base,
        frame_at(*final(stack), sp) == f@,
        forall|i: int|
            0 <= i < 2048 && !(old(stack).index_of(sp) <= i < old(stack).index_of(sp) + 32)
                ==> final(stack).words[i] == old(stack).words[i],
{
    let at: usize = ((sp - stack.base.0) / 4) as usize;
    let w: [u32; 32] = f.to_words();
    let mut k: usize = 0;
    while k < 32
        invariant
            k <= 32,
            at + 32 <= 2048,
            at == old(stack).index_of(sp),
            stack.base == old(stack).base,
            w@ == f@,
            forall|i: int| 0 <= i < k ==> stack.words[at + i] == w[i],
            forall|i: int|
                0 <= i < 2048 && !(at <= i < at + 32) ==> stack.words[i] == old(stack).words[i],
        decreases 32 - k,
    {
        stack.words[at + k] = w[k];
        k = k + 1;
    }
    assert(frame_at(*stack, sp) =~= f@);
}

/// Reads the frame that lies in the 32 words of `stack` from address `sp`
/// on.
pub fn read_frame(stack: &KernelStack, sp: u32) -> (f: TrapFrame)
    requires
        stack.wf(),
        stack.holds(sp, 32),
    ensures
        f@ == frame_at(*stack, sp),
{
    let at: usize = ((sp - stack.base.0) / 4) as usize;
    let mut w: [u32; 32] = [0u32; 32];
    let mut k: usize = 0;
    while k < 32
        invariant
            k <= 32,
            at + 32 <= 2048,
            at == stack.index_of(sp),
            forall|i: int| 0 <= i < k ==> w[i] == stack.words[at + i],
        decreases 32 - k,
    {
        w[k] = stack.words[at + k];
        k = k + 1;
    }
    assert(w@ =~= frame_at(*stack, sp));
    TrapFrame::from_words(&w)
}

/// Enters the kernel on a trap: picks the kernel stack, pushes the frame
/// with every register as it stood onto it, clears the scratch register
/// to say that the kernel runs, and masks interrupts, keeping whether they
/// were enabled. `stack` is the kernel stack of the process that runs.
/// Returns the frame's address, which is the new stack pointer.
pub fn kernel_entry(cpu: &mut Cpu, stack: &mut KernelStack) -> (frame: VAddr)
    requires
        old(stack).wf(),
        kernel_sp(*old(cpu)) >= 128,
        old(stack).holds((kernel_sp(*old(cpu)) - 128) as u32, 32),
    ensures
        frame.0 == kernel_sp(*old(cpu)) - 128,
        final(stack).base == old(stack).base,
        frame_at(*final(stack), frame.0) == frame_of(*old(cpu))@,
        forall|i: int|
            0 <= i < 2048 && !(old(stack).index_of(frame.0) <= i < old(stack).index_of(frame.0)
                + 32) ==> final(stack).words[i] == old(stack).words[i],
        *final(cpu) == entered(*old(cpu)),
{
    let f = TrapFrame {
        ra: cpu.ra,
        gp: cpu.gp,
        tp: cpu.tp,
        t: cpu.t,
        a: cpu.a,
        s: cpu.s,
        sp: cpu.sp,
        sscratch: cpu.sscratch,
    };
    let top: u32 = if cpu.sscratch != 0 {
        cpu.sscratch
    } else {
        cpu.sp
    };
    cpu.sp = top - FRAME_BYTES;
    cpu.sscratch = 0;
    cpu.sstatus = (cpu.sstatus & !0x22) | ((cpu.sstatus & SSTATUS_SIE) << 4);
    write_frame(stack, cpu.sp, &f);
    VAddr(cpu.sp)
}

/// Leaves the kernel: every register, the stack pointer and the scratch
/// register are taken from the frame `f`, which was read from the stack,
/// and interrupts are enabled again if they were when the kernel was
/// entered.
pub fn kernel_return(cpu: &mut Cpu, f: &TrapFrame)
    ensures
        *final(cpu) == returned(*old(cpu), *f),
{
    cpu.sscratch = f.sscratch;
    cpu.ra = f.ra;
    cpu.gp = f.gp;
    cpu.tp = f.tp;
    cpu.t = f.t;
    cpu.a = f.a;
    cpu.s = f.s;
    cpu.sp = f.sp;
    cpu.sstatus = (cpu.sstatus & !SSTATUS_SIE) | ((cpu.sstatus & SSTATUS_SPIE) >> 4);
}

/// Sets the processor up to drop to user mode at the user base, with
/// interrupts enabled there and user memory open to the supervisor.
pub fn user_entry(cpu: &mut Cpu)
    ensures
        *final(cpu) == (Cpu { sepc: 0x0100_0000u32, sstatus: 0x4_0020u32, ..*old(cpu) }),
{
    assert(0x20u32 | 0x4_0000u32 == 0x4_0020u32) by (bit_vector);
    cpu.sepc = USER_BASE;
    cpu.sstatus = SSTATUS_SPIE | SSTATUS_SUM;
}

/// What is to be done about a trap.
#[derive(Clone, Copy, Debug, PartialEq, Eq, Structural)]
pub enum TrapAction {
    /// A system call: handle it, then resume the caller at `return_pc`,
    /// the instruction after the call.
    Syscall { return_pc: u32 },
    /// The timer: arm it for `quantum_ms` milliseconds from now, then
    /// yield.
    Timer { quantum_ms: u64 },
    /// Anything else: the kernel cannot go on.
    Fatal { scause: u32, stval: u32, sepc: u32 },
}

/// Tells the causes of a trap apart. `sepc` is the address of the
/// instruction that trapped; the address after a four-byte instruction at
/// the very end of the address space is 0.
pub fn handle_trap(scause: u32, stval: u32, sepc: u32) -> (r: TrapAction)
    ensures
        scause == 8 ==> r == (TrapAction::Syscall {
            return_pc: ((sepc + 4) % 0x1_0000_0000) as u32,
        }),
        scause == 0x8000_0005u32 ==> r == (TrapAction::Timer { quantum_ms: 500 }),
        scause != 8 && scause != 0x8000_0005u32 ==> r == (TrapAction::Fatal { scause, stval, sepc }),
{
    if scause == SCAUSE_ECALL {
        let return_pc: u32 = if sepc > 0xffff_fffb {
            sepc - 0xffff_fffc
        } else {
            sepc + 4
        };
        TrapAction::Syscall { return_pc }
    } else if scause == SCAUSE_TIMER_INTERRUPT {
        TrapAction::Timer { quantum_ms: QUANTUM_MS }
    } else {
        TrapAction::Fatal { scause, stval, sepc }
    }
}

/// What is left to do for a system call once it has been looked at.
#[derive(Clone, Copy, Debug, PartialEq, Eq, Structural)]
pub enum SyscallAction {
    /// Write `byte` to the console and report how that went.
    PutByte { byte: u8 },
    /// Try to read a byte from the console and report how that went.
    GetChar,
    /// The process has been marked as exited: yield, never to come back.
    Exit,
    /// The call is done and its result is in the frame; where `flush` is
    /// set, the file table is to be written back to the block device.
    Done { flush: bool },
}

/// Handles a system call. The number is in `f.a[7]`, the arguments are in
/// `f.a[0]` to `f.a[3]`, and the result goes to `f.a[0]`. For the two file
/// calls `name` holds the bytes of the file's name and `buf` those of the
/// caller's buffer, both as the frame's arguments tell their lengths.
///
/// A number that names no call, and a buffer longer than the file can
/// hold, are fatal to the kernel: the caller rules them out first.
pub fn handle_syscall(
    f: &mut TrapFrame,
    sched: &mut Scheduler,
    files: &mut Files,
    name: &Vec<u8>,
    buf: &mut Vec<u8>,
) -> (r: SyscallAction)
    requires
        1 <= old(f).a[7] <= 5,
        old(f).a[7] == 3 ==> old(sched).wf() && old(sched).current_proc is Some,
        old(f).a[7] == 4 || old(f).a[7] == 5 ==> name.len() == old(f).a[1] && old(buf).len() == old(
            f,
        ).a[3] && (old(files).lookup(name@) is Some ==> old(buf).len() <= old(
            files,
        ).files[old(files).lookup(name@)->0].data.len()),
    ensures
        old(f).a[7] == 1 ==> r == (SyscallAction::PutByte { byte: (old(f).a[0] % 256) as u8 })
            && *final(f) == *old(f),
        old(f).a[7] == 2 ==> r == SyscallAction::GetChar && *final(f) == *old(f),
        old(f).a[7] == 3 ==> r == SyscallAction::Exit && *final(f) == *old(f) && exited(
            *old(sched),
            *final(sched),
        ) && final(sched).wf(),
        old(f).a[7] != 3 ==> *final(sched) == *old(sched),
        old(f).a[7] != 4 ==> final(buf)@ == old(buf)@,
        old(f).a[7] != 5 ==> *final(files) == *old(files),
        (old(f).a[7] == 4 || old(f).a[7] == 5) && old(files).lookup(name@) is None ==> r == (
        SyscallAction::Done { flush: false }) && final(f).answers(*old(f), 0xffff_ffffu32)
            && final(buf)@ == old(buf)@ && *final(files) == *old(files),
        old(f).a[7] == 4 && old(files).lookup(name@) is Some ==> r == (SyscallAction::Done {
            flush: false,
        }) && final(f).answers(*old(f), old(f).a[3]) && final(buf)@ == read_bytes(
            old(files).files[old(files).lookup(name@)->0].data@,
            old(buf).len() as int,
        ),
        old(f).a[7] == 5 && old(files).lookup(name@) is Some ==> r == (SyscallAction::Done {
            flush: true,
        }) && final(f).answers(*old(f), old(f).a[3]) && ({
            let i = old(files).lookup(name@)->0;
            &&& final(files).files.len() == old(files).files.len()
            &&& final(files).files[i].data@ == written(old(files).files[i].data@, old(buf)@)
            &&& final(files).files[i].size == old(buf).len()
            &&& final(files).files[i].name == old(files).files[i].name
            &&& forall|j: int|
                0 <= j < old(files).files.len() && j != i ==> final(files).files[j] == old(
                    files,
                ).files[j]
        }),
{
    let sysno: u32 = f.a[7];
    if sysno == SYS_PUTBYTE {
        let word: u32 = f.a[0];
        assert(word & 0xffu32 == word % 256u32) by (bit_vector);
        SyscallAction::PutByte { byte: (word & 0xff) as u8 }
    } else if sysno == SYS_GETCHAR {
        SyscallAction::GetChar
    } else if sysno == SYS_EXIT {
        exit_current(sched);
        SyscallAction::Exit
    } else {
        let buf_len: u32 = f.a[3];
        match files.fs_lookup(name) {
            None => {
                f.a[0] = NO_SUCH_FILE;
                SyscallAction::Done { flush: false }
            },
            Some(i) => {
                let flush: bool = sysno == SYS_WRITEFILE;
                if flush {
                    files.write(i, buf);
                } else {
                    files.read(i, buf);
                }
                f.a[0] = buf_len;
                SyscallAction::Done { flush }
            },
        }
    }
}

/// Ends a console write: the frame gets 0 where the firmware reported
/// success, and the firmware's error otherwise.
pub fn finish_put_byte(f: &mut TrapFrame, outcome: Result<i32, i32>)
    ensures
        outcome is Ok ==> final(f).answers(*old(f), 0),
        outcome is Err ==> final(f).answers(*old(f), outcome->Err_0 as u32),
{
    match outcome {
        Ok(_) => {
            f.a[0] = 0;
        },
        Err(e) => {
            f.a[0] = e as u32;
        },
    }
}

/// Ends one try of a console read. Where a byte was there, it goes to the
/// frame and the call is done; where none was, the frame stays as it is and
/// the caller yields and tries again. Returns whether the call is done.
pub fn finish_get_char(f: &mut TrapFrame, outcome: Result<i32, i32>) -> (done: bool)
    ensures
        done == outcome is Ok,
        outcome is Ok ==> final(f).answers(*old(f), outcome->Ok_0 as u32),
        outcome is Err ==> *final(f) == *old(f),
{
    match outcome {
        Ok(ch) => {
            f.a[0] = ch as u32;
            true
        },
        Err(_) => false,
    }
}

} // verus!
