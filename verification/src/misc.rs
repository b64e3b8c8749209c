//! Usercalls that touch no state of the enclave, and the debugger's trap.
use crate::error::ErrorKind;
use vstd::prelude::*;

verus! {

/// The number of nanoseconds in a second.
pub const NANOS_PER_SEC: u64 = 1_000_000_000;

/// The time since the epoch in nanoseconds, from the whole seconds and the nanoseconds of the
/// last one. It has to fit.
pub fn insecure_time(secs: u64, subsec_nanos: u32) -> (time: u64)
    requires
        secs * NANOS_PER_SEC + subsec_nanos <= u64::MAX,
    ensures
        time == secs * NANOS_PER_SEC + subsec_nanos,
        time == secs * 1_000_000_000 + subsec_nanos,
{
    (subsec_nanos as u64) + secs * NANOS_PER_SEC
}

/// A later time is a larger number.
pub proof fn law_time_order(secs1: u64, nanos1: u32, secs2: u64, nanos2: u32)
    requires
        nanos1 < NANOS_PER_SEC,
        nanos2 < NANOS_PER_SEC,
        secs1 < secs2 || (secs1 == secs2 && nanos1 < nanos2),
    ensures
        secs1 * NANOS_PER_SEC + nanos1 < secs2 * NANOS_PER_SEC + nanos2,
{
}

/// Asynchronous usercalls are not offered.
pub fn async_queues() -> (queues: Result<(), ErrorKind>)
    ensures
        queues == Err::<(), ErrorKind>(ErrorKind::Other),
{
    Err(ErrorKind::Other)
}

/// The instruction that raises a trap for a debugger.
pub const INT3: u8 = 0xcc;

/// Where a thread goes on after a trap at `rip`, where the byte `inst` stands. With no debugger
/// attached the trap is skipped.
pub fn resume_address(rip: i64, inst: u8) -> (resume: i64)
    requires
        inst == INT3 ==> rip < i64::MAX,
    ensures
        resume == (if inst == INT3 {
            rip + 1
        } else {
            rip as int
        }),
        resume == rip + 1 <==> inst == 0xcc,
{
    if inst == INT3 {
        rip + 1
    } else {
        rip
    }
}

/// The registers of a thread, in the order in which a signal handler finds them.
#[derive(Clone, Copy, Debug, PartialEq, Eq, Structural)]
pub enum Greg {
    R8,
    R9,
    R10,
    R11,
    R12,
    R13,
    R14,
    R15,
    RDI,
    RSI,
    RBP,
    RBX,
    RDX,
    RAX,
    RCX,
    RSP,
    RIP,
    EFL,
    /// Actually short cs, gs, fs, and padding.
    CSGSFS,
    ERR,
    TRAPNO,
    OLDMASK,
    CR2,
}

/// Every register has a place of its own. A place is found by the register, and the register by the
/// place.
pub proof fn law_register_places(r: Greg, i: int)
    ensures
        Greg::order().len() == 23,
        0 <= i < 23 ==> (Greg::order()[i] == r <==> i == (match r {
                Greg::R8 => 0int,
                Greg::R9 => 1int,
                Greg::R10 => 2int,
                Greg::R11 => 3int,
                Greg::R12 => 4int,
                Greg::R13 => 5int,
                Greg::R14 => 6int,
                Greg::R15 => 7int,
                Greg::RDI => 8int,
                Greg::RSI => 9int,
                Greg::RBP => 10int,
                Greg::RBX => 11int,
                Greg::RDX => 12int,
                Greg::RAX => 13int,
                Greg::RCX => 14int,
                Greg::RSP => 15int,
                Greg::RIP => 16int,
                Greg::EFL => 17int,
                Greg::CSGSFS => 18int,
                Greg::ERR => 19int,
                Greg::TRAPNO => 20int,
                Greg::OLDMASK => 21int,
                Greg::CR2 => 22int,
            })),
{
}

impl Greg {
    /// All registers in their order.
    pub open spec fn order() -> Seq<Greg> {
        seq![
            Greg::R8,
            Greg::R9,
            Greg::R10,
            Greg::R11,
            Greg::R12,
            Greg::R13,
            Greg::R14,
            Greg::R15,
            Greg::RDI,
            Greg::RSI,
            Greg::RBP,
            Greg::RBX,
            Greg::RDX,
            Greg::RAX,
            Greg::RCX,
            Greg::RSP,
            Greg::RIP,
            Greg::EFL,
            Greg::CSGSFS,
            Greg::ERR,
            Greg::TRAPNO,
            Greg::OLDMASK,
            Greg::CR2,
        ]
    }

    /// The place of the register in that order.
    pub fn index(&self) -> (index: usize)
        ensures
            index < Greg::order().len(),
            Greg::order()[index as int] == *self,
    {
        match self {
            Greg::R8 => 0,
            Greg::R9 => 1,
            Greg::R10 => 2,
            Greg::R11 => 3,
            Greg::R12 => 4,
            Greg::R13 => 5,
            Greg::R14 => 6,
            Greg::R15 => 7,
            Greg::RDI => 8,
            Greg::RSI => 9,
            Greg::RBP => 10,
            Greg::RBX => 11,
            Greg::RDX => 12,
            Greg::RAX => 13,
            Greg::RCX => 14,
            Greg::RSP => 15,
            Greg::RIP => 16,
            Greg::EFL => 17,
            Greg::CSGSFS => 18,
            Greg::ERR => 19,
            Greg::TRAPNO => 20,
            Greg::OLDMASK => 21,
            Greg::CR2 => 22,
        }
    }
}

} // verus!
