//! The user side of the system calls: what goes into the registers for
//! each call, and what the word that comes back means.

use vstd::prelude::*;
use crate::trap::{SYS_EXIT, SYS_GETCHAR, SYS_PUTBYTE, SYS_READFILE, SYS_WRITEFILE};

verus! {

/// The registers of one system call: four arguments and the call's number.
#[derive(Clone, Copy, Debug, PartialEq, Eq, Structural)]
pub struct SysCall {
    pub arg0: u32,
    pub arg1: u32,
    pub arg2: u32,
    pub arg3: u32,
    pub sysno: u32,
}

/// The call that writes the byte `b` to the console.
pub fn put_byte_call(b: u8) -> (r: SysCall)
    ensures
        r == (SysCall { arg0: b as u32, arg1: 0, arg2: 0, arg3: 0, sysno: 1 }),
{
    SysCall { arg0: b as u32, arg1: 0, arg2: 0, arg3: 0, sysno: SYS_PUTBYTE }
}

/// What a console write returned: success is 0, anything else an error.
pub fn put_byte_result(answer: u32) -> (r: Result<(), u32>)
    ensures
        answer == 0 ==> r == Ok::<(), u32>(()),
        answer != 0 ==> r == Err::<(), u32>(answer),
{
    if answer == 0 {
        Ok(())
    } else {
        Err(answer)
    }
}

/// The call that reads a byte from the console.
pub fn get_char_call() -> (r: SysCall)
    ensures
        r == (SysCall { arg0: 0, arg1: 0, arg2: 0, arg3: 0, sysno: 2 }),
{
    SysCall { arg0: 0, arg1: 0, arg2: 0, arg3: 0, sysno: SYS_GETCHAR }
}

/// What a console read returned: all ones says that there was no byte,
/// anything else is the byte.
pub fn get_char_result(answer: u32) -> (r: Option<u32>)
    ensures
        answer == 0xffff_ffffu32 ==> r is None,
        answer != 0xffff_ffffu32 ==> r == Some(answer),
{
    if answer == 0xffff_ffff {
        None
    } else {
        Some(answer)
    }
}

/// The call that ends the process.
pub fn exit_call() -> (r: SysCall)
    ensures
        r == (SysCall { arg0: 0, arg1: 0, arg2: 0, arg3: 0, sysno: 3 }),
{
    SysCall { arg0: 0, arg1: 0, arg2: 0, arg3: 0, sysno: SYS_EXIT }
}

/// The call that reads the file whose name of `name_len` bytes lies at
/// `name` into the buffer of `buf_len` bytes at `buf`.
pub fn readfile_call(name: u32, name_len: u32, buf: u32, buf_len: u32) -> (r: SysCall)
    ensures
        r == (SysCall { arg0: name, arg1: name_len, arg2: buf, arg3: buf_len, sysno: 4 }),
{
    SysCall { arg0: name, arg1: name_len, arg2: buf, arg3: buf_len, sysno: SYS_READFILE }
}

/// The call that writes the buffer of `buf_len` bytes at `buf` to the file
/// whose name of `name_len` bytes lies at `name`.
pub fn writefile_call(name: u32, name_len: u32, buf: u32, buf_len: u32) -> (r: SysCall)
    ensures
        r == (SysCall { arg0: name, arg1: name_len, arg2: buf, arg3: buf_len, sysno: 5 }),
{
    SysCall { arg0: name, arg1: name_len, arg2: buf, arg3: buf_len, sysno: SYS_WRITEFILE }
}

} // verus!
