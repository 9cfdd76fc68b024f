//! The firmware interface as far as it is arithmetic: the numbers of the
//! calls, how a tick count is handed over in two words, and what the word
//! that a call returns means.

use vstd::prelude::*;

verus! {

/// Call number: arm the timer.
pub const EID_SET_TIMER: i32 = 0;
/// Call number: write a byte to the console.
pub const EID_CONSOLE_PUTCHAR: i32 = 1;
/// Call number: read a byte from the console.
pub const EID_CONSOLE_GETCHAR: i32 = 2;

/// What the firmware's answer to a console write means: success is 0,
/// anything else is the firmware's error.
pub fn put_byte_result(answer: i32) -> (r: Result<i32, i32>)
    ensures
        answer == 0 ==> r == Ok::<i32, i32>(0),
        answer != 0 ==> r == Err::<i32, i32>(answer),
{
    if answer == 0 {
        Ok(0)
    } else {
        Err(answer)
    }
}

/// What the firmware's answer to a console read means: -1 says that no
/// byte is waiting, anything else is the byte.
pub fn get_char_result(answer: i32) -> (r: Result<i32, i32>)
    ensures
        answer != -1 ==> r == Ok::<i32, i32>(answer),
        answer == -1 ==> r == Err::<i32, i32>(-1i32),
{
    if answer != -1 {
        Ok(answer)
    } else {
        Err(-1)
    }
}

/// The two words in which a tick count goes to the firmware: the low half,
/// then the high half.
pub fn set_timer_args(ticks: u64) -> (r: (u32, u32))
    ensures
        r.0 == ticks as int % 0x1_0000_0000,
        r.1 == ticks as int / 0x1_0000_0000,
{
    assert((ticks & 0xffff_ffffu64) == ticks % 0x1_0000_0000u64 && (ticks >> 32u64) == ticks
        / 0x1_0000_0000u64 && (ticks >> 32u64) <= 0xffff_ffffu64 && (ticks & 0xffff_ffffu64)
        <= 0xffff_ffffu64) by (bit_vector);
    ((ticks & 0xffff_ffff) as u32, (ticks >> 32) as u32)
}

/// What the firmware's answer to arming the timer means: success is 0,
/// anything else is the firmware's error.
pub fn set_timer_result(answer: i32) -> (r: Result<i32, i32>)
    ensures
        answer == 0 ==> r == Ok::<i32, i32>(0),
        answer != 0 ==> r == Err::<i32, i32>(answer),
{
    if answer == 0 {
        Ok(answer)
    } else {
        Err(answer)
    }
}

} // verus!
