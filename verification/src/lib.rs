//! The core of a small preemptive kernel for a 32-bit RISC-V machine with
//! two-level address translation, as a model on plain values: address
//! spaces and their page tables, the process table, the image in which a
//! process is parked on its kernel stack, the switch between two parked
//! processes, the round-robin scheduler, traps and system calls. What
//! touches the machine itself, the registers and the firmware, lies outside
//! and hands its readings in.

pub mod address;
pub mod allocator;
pub mod context;
pub mod files;
pub mod page;
pub mod process;
pub mod sbi;
pub mod scheduler;
pub mod shell;
pub mod timer;
pub mod trap;
pub mod user;
