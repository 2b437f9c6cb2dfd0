//! What is reported of a finished run.
use vstd::prelude::*;
use crate::status::SIGSYS;

verus! {

/// A length of time.
#[derive(Clone, Copy, PartialEq, Eq, Structural, Debug)]
pub struct TimeSpan {
    pub secs: u64,
    /// Nanoseconds beyond the full seconds.
    pub nanos: u32,
}

/// What is left of a length of time when another is taken off it; nothing if the other
/// is longer.
pub open spec fn is_left(whole: TimeSpan, taken: TimeSpan, rest: TimeSpan) -> bool {
    &&& rest.wf()
    &&& rest.as_nanos() == if whole.as_nanos() >= taken.as_nanos() {
        (whole.as_nanos() - taken.as_nanos()) as nat
    } else {
        0
    }
}

impl TimeSpan {
    /// The nanoseconds make up less than a second.
    pub open spec fn wf(self) -> bool {
        self.nanos < 1_000_000_000
    }

    /// The whole length in nanoseconds.
    pub open spec fn as_nanos(self) -> nat {
        (self.secs * 1_000_000_000 + self.nanos) as nat
    }

    /// The full milliseconds, of which 64 bits are kept.
    pub open spec fn millis(self) -> nat {
        ((self.secs * 1000 + self.nanos as int / 1_000_000) % 0x1_0000_0000_0000_0000) as nat
    }

    /// What is left of this length when another is taken off it; nothing if the
    /// other is longer.
    pub fn minus(&self, other: &TimeSpan) -> (rest: TimeSpan)
        requires
            self.wf(),
        ensures
            is_left(*self, *other, rest),
    {
        let a: u128 = self.secs as u128 * 1_000_000_000 + self.nanos as u128;
        let b: u128 = other.secs as u128 * 1_000_000_000 + other.nanos as u128;
        if a < b {
            return TimeSpan { secs: 0, nanos: 0 };
        }
        let d: u128 = a - b;
        let secs: u128 = d / 1_000_000_000;
        let nanos: u128 = d % 1_000_000_000;
        assert(secs <= u64::MAX) by {
            assert(a < 1_000_000_000 * (u64::MAX as int + 1));
        }
        TimeSpan { secs: secs as u64, nanos: nanos as u32 }
    }

    /// Whether the nanoseconds make up less than a second.
    pub fn is_wf(&self) -> (yes: bool)
        ensures
            yes == self.wf(),
    {
        self.nanos < 1_000_000_000
    }

    /// Whether no time has passed at all.
    pub fn is_zero(&self) -> (zero: bool)
        ensures
            zero == (self.secs == 0 && self.nanos == 0),
    {
        self.secs == 0 && self.nanos == 0
    }

    /// The full milliseconds, of which 64 bits are kept.
    pub fn as_millis_u64(&self) -> (ms: u64)
        ensures
            ms == self.millis(),
    {
        let ms: u128 = self.secs as u128 * 1000 + (self.nanos / 1_000_000) as u128;
        assert((ms as u64) as u128 == ms % 0x1_0000_0000_0000_0000u128) by (bit_vector);
        ms as u64
    }
}

/// Why a sandboxed process stopped.
#[derive(Clone, Copy, PartialEq, Eq, Structural, Debug)]
pub enum TerminationReason {
    /// The process exited with the given code.
    Exited(i32),
    /// The time was up; every process of the cgroup was killed.
    TimedOut,
    /// The kernel killed for lack of memory.
    OomKilled,
    /// The system call filter killed; the field is the system call number.
    SeccompViolation(u32),
    /// Another signal killed; the field is the signal number.
    SignalKilled(i32),
    /// The time was up and the cgroup kill is what ended the process.
    CgroupKillFallback,
}

/// An exit status says the same as a reason: the code of an exit, the number of
/// the signal that killed, and -1 where neither applies.
pub open spec fn agree(exit_status: i32, reason: TerminationReason) -> bool {
    match reason {
        TerminationReason::Exited(code) => exit_status == code,
        TerminationReason::SignalKilled(signal) => exit_status == signal,
        TerminationReason::SeccompViolation(_) => exit_status == SIGSYS,
        _ => exit_status == -1,
    }
}

/// The report on a sandboxed process that has finished or was stopped.
#[derive(Debug)]
pub struct ExecutionReport {
    /// Exit code; meaningful if the reason is `Exited`.
    pub exit_status: i32,
    /// Why the process stopped.
    pub termination_reason: TerminationReason,
    /// What came out of the terminal.
    pub stdout_bytes: Vec<u8>,
    /// What came out of the standard error pipe.
    pub stderr_bytes: Vec<u8>,
    /// Time from the request to start the process until it was gone.
    pub wall_time: TimeSpan,
    /// Peak memory use in bytes.
    pub peak_memory_bytes: u64,
    /// Processor time in microseconds.
    pub cpu_time_us: u64,
    /// The system call that the filter killed for.
    pub seccomp_violation: Option<u32>,
}

// ---- Laws ----

/// A length of time counts a thousand million for each second and one for each
/// nanosecond beyond; lengths that count the same are the same.
pub proof fn lengths_of_time_add_up(a: TimeSpan, b: TimeSpan)
    requires
        a.wf(),
        b.wf(),
    ensures
        a.nanos < 1_000_000_000,
        a.as_nanos() == b.as_nanos() ==> a == b,
        a.as_nanos() - b.as_nanos() == (a.secs - b.secs) * 1_000_000_000 + (a.nanos - b.nanos),
        (TimeSpan { secs: 0, nanos: 0 }).as_nanos() == 0,
        a.secs == 0 ==> a.as_nanos() == a.nanos,
        a.nanos == 0 ==> a.as_nanos() == a.secs * 1_000_000_000,
{
}

/// The full milliseconds are those that fit: no more than the length of time, and
/// less than one short of it, as long as they have at most 64 bits.
pub proof fn milliseconds_are_rounded_down(a: TimeSpan)
    requires
        a.wf(),
        a.as_nanos() < 0x1_0000_0000_0000_0000 * 1_000_000,
    ensures
        a.millis() * 1_000_000 <= a.as_nanos() < (a.millis() + 1) * 1_000_000,
{
}

/// A reason goes with its own exit status and no other.
pub proof fn reasons_go_with_their_status(status: i32, code: i32, nr: u32)
    ensures
        agree(status, TerminationReason::Exited(code)) <==> status == code,
        agree(status, TerminationReason::SignalKilled(code)) <==> status == code,
        agree(status, TerminationReason::SeccompViolation(nr)) <==> status == 31,
        agree(status, TerminationReason::TimedOut) <==> status == -1,
        agree(status, TerminationReason::OomKilled) <==> status == -1,
        agree(status, TerminationReason::CgroupKillFallback) <==> status == -1,
{
}

/// What is left of a length of time and what was taken off it make it up again, until
/// nothing is left.
pub proof fn what_is_left_makes_up_the_whole(whole: TimeSpan, taken: TimeSpan, rest: TimeSpan)
    requires
        is_left(whole, taken, rest),
    ensures
        rest.nanos < 1_000_000_000,
        taken.as_nanos() <= whole.as_nanos() ==> rest.as_nanos() + taken.as_nanos()
            == whole.as_nanos(),
        taken.as_nanos() > whole.as_nanos() ==> rest.secs == 0 && rest.nanos == 0,
{
}

} // verus!
