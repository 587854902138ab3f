//! Decisions behind the system calls newlib makes into the runtime, and the
//! WAMR log levels.
use vstd::prelude::*;

verus! {

/// `errno` value for an exhausted heap.
pub const ENOMEM: i32 = 12;

/// `errno` value for an unsupported system call.
pub const ENOSYS: i32 = 88;

/// The address `incr` bytes from `brk`, wrapping around the address space.
pub open spec fn offset_address(brk: usize, incr: i32) -> usize {
    if brk + incr > usize::MAX {
        (brk + incr - (usize::MAX + 1)) as usize
    } else if brk + incr < 0 {
        (brk + incr + (usize::MAX + 1)) as usize
    } else {
        (brk + incr) as usize
    }
}

/// The outcome of `_sbrk(incr)` when the program break is at `brk` and the
/// heap ends at `heap_end`: the break moves by `incr` in any case; the call
/// returns the old break when the new one lies below the heap end, and
/// fails with `ENOMEM` otherwise. Unlike newlib's own `sbrk`, a refused
/// request still leaves the break moved; this runtime keeps that behaviour.
pub fn sbrk_step(brk: usize, heap_end: usize, incr: i32) -> (r: (usize, Option<usize>))
    ensures
        r.0 == offset_address(brk, incr),
        r.1 == (if r.0 < heap_end {
            Some(brk)
        } else {
            None::<usize>
        }),
{
    let new_break: usize = brk.wrapping_add_signed(incr as isize);
    if new_break < heap_end {
        (new_break, Some(brk))
    } else {
        (new_break, None)
    }
}

/// Whether `_write` sends the bytes to the serial output: it does for
/// standard output (1) and standard error (2); any other file fails with
/// `ENOSYS`.
pub fn write_goes_to_serial(file: i32) -> (b: bool)
    ensures
        b == (file == 1 || file == 2),
{
    file == 1 || file == 2
}

/// Verbosity of WAMR's log output.
#[allow(non_camel_case_types)]
#[derive(Clone, Copy, Debug, PartialEq, Eq)]
pub enum WamrLogLevel {
    FATAL,
    ERROR,
    WARNING,
    DEBUG,
    VERBOSE,
}

impl WamrLogLevel {
    /// The number WAMR knows the level by.
    pub open spec fn spec_raw(self) -> u32 {
        match self {
            WamrLogLevel::FATAL => 0,
            WamrLogLevel::ERROR => 1,
            WamrLogLevel::WARNING => 2,
            WamrLogLevel::DEBUG => 3,
            WamrLogLevel::VERBOSE => 4,
        }
    }

    /// The number WAMR knows the level by: from 0 for `FATAL` up to 4 for
    /// `VERBOSE`.
    pub fn raw(self) -> (r: u32)
        ensures
            r == self.spec_raw(),
    {
        match self {
            WamrLogLevel::FATAL => 0,
            WamrLogLevel::ERROR => 1,
            WamrLogLevel::WARNING => 2,
            WamrLogLevel::DEBUG => 3,
            WamrLogLevel::VERBOSE => 4,
        }
    }
}

} // verus!
