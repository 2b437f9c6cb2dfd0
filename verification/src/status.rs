//! Exit statuses.
//!
//! The fork server reaps a sandboxed process in a signal handler, which leaves
//! the wait status in a file named after the process id. The supervising
//! process reads that file and decides why the process ended.
use vstd::prelude::*;
use vstd::string::*;
use crate::error::SandboxError;
use crate::files;
use crate::report;
use crate::report::TerminationReason;
use crate::text;
use crate::text::{parse_named_u64, parse_trimmed_signed, push_decimal};
use crate::wire::push_raw;

verus! {

pub const SIGSYS: i32 = 31;

/// How often the status file is looked for before giving up.
pub const STATUS_POLLS: u32 = 100;

// ---- Leaving the status ----

/// The path of the status file of a process.
pub open spec fn status_path(pid: int) -> Seq<u8> {
    "/tmp/sandbox-status-".spec_bytes() + text::ascii(text::signed_decimal(pid))
}

/// The text that the status file holds: the wait status and a line feed.
pub open spec fn status_text(status: int) -> Seq<char> {
    text::signed_decimal(status).push('\n')
}

proof fn lemma_prefix()
    ensures
        "/tmp/sandbox-status-".spec_bytes().len() == 20,
{
    reveal_strlit("/tmp/sandbox-status-");
    assert(vstd::string::is_ascii("/tmp/sandbox-status-"));
    vstd::string::is_ascii_spec_bytes("/tmp/sandbox-status-");
}

/// Ten to the power of `k`.
spec fn tens(k: nat) -> nat
    decreases k,
{
    if k == 0 {
        1
    } else {
        10 * tens((k - 1) as nat)
    }
}

proof fn lemma_decimal_len(n: nat, k: nat)
    requires
        k > 0,
        n < tens(k),
    ensures
        text::decimal(n).len() <= k,
    decreases n,
{
    if n >= 10 {
        if k == 1 {
            assert(tens(1) == 10) by {
                reveal_with_fuel(tens, 2);
            }
        }
        lemma_decimal_len(n / 10, (k - 1) as nat);
    }
}

proof fn lemma_small_decimal(n: nat)
    requires
        n <= 0x8000_0000,
    ensures
        text::decimal(n).len() <= 10,
{
    reveal_with_fuel(tens, 11);
    lemma_decimal_len(n, 10);
}

/// Writes a number in decimal into an array from position `at` on, without
/// touching the heap, and returns the position behind it.
fn put_decimal<const N: usize>(buf: &mut [u8; N], at: usize, n: u32) -> (end: usize)
    requires
        at + text::decimal(n as nat).len() <= N,
    ensures
        end == at + text::decimal(n as nat).len(),
        final(buf)@.subrange(0, at as int) == old(buf)@.subrange(0, at as int),
        final(buf)@.subrange(at as int, end as int) == text::ascii(text::decimal(n as nat)),
    decreases n,
{
    let ghost start = buf@;
    let mut end: usize = at;
    if n >= 10 {
        end = put_decimal(buf, at, n / 10);
    }
    let ghost before = buf@;
    buf[end] = 48 + (n % 10) as u8;
    end += 1;
    proof {
        assert(buf@.subrange(0, at as int) =~= before.subrange(0, at as int));
        assert(buf@.subrange(at as int, end - 1) =~= before.subrange(at as int, end - 1));
        assert(buf@.subrange(at as int, end as int) =~= text::ascii(text::decimal(n as nat)));
    }
    end
}

/// The path of the status file of a process, closed by a zero byte, in an array
/// on the stack; the second field is its length.
pub fn status_file_name(pid: i32) -> (name: ([u8; 64], usize))
    requires
        pid > 0,
    ensures
        name.1 < 64,
        name.0@.subrange(0, name.1 as int) == status_path(pid as int),
        name.0@[name.1 as int] == 0,
{
    proof {
        lemma_prefix();
        lemma_small_decimal(pid as nat);
    }
    let mut buf: [u8; 64] = [0; 64];
    let prefix: &[u8] = "/tmp/sandbox-status-".as_bytes();
    let mut i: usize = 0;
    while i < prefix.len()
        invariant
            i <= prefix@.len(),
            prefix@.len() == 20,
            buf@.subrange(0, i as int) == prefix@.subrange(0, i as int),
        decreases prefix@.len() - i,
    {
        let ghost before = buf@;
        buf[i] = prefix[i];
        i += 1;
        assert(before.subrange(0, i - 1) =~= buf@.subrange(0, i - 1));
        assert(buf@.subrange(0, i as int) =~= buf@.subrange(0, i - 1).push(prefix@[i - 1]));
        assert(prefix@.subrange(0, i as int) =~= prefix@.subrange(0, i - 1).push(prefix@[i - 1]));
    }
    let len: usize = put_decimal(&mut buf, i, pid as u32);
    let ghost before = buf@;
    buf[len] = 0;
    proof {
        assert(prefix@.subrange(0, 20) =~= prefix@);
        assert(buf@.subrange(0, len as int) =~= before.subrange(0, 20) + before.subrange(
            20,
            len as int,
        ));
    }
    (buf, len)
}

/// What goes into the status file, in an array on the stack; the second field is
/// its length.
pub fn status_record(status: i32) -> (record: ([u8; 16], usize))
    requires
        status != i32::MIN,
    ensures
        record.1 <= 16,
        record.0@.subrange(0, record.1 as int) == text::ascii(status_text(status as int)),
{
    let mut buf: [u8; 16] = [0; 16];
    let mut at: usize = 0;
    let mut rest: i32 = status;
    if status < 0 {
        buf[0] = 45;
        at = 1;
        rest = -status;
    }
    proof {
        lemma_small_decimal(rest as nat);
    }
    let len: usize = put_decimal(&mut buf, at, rest as u32);
    let ghost before = buf@;
    buf[len] = 10;
    proof {
        assert(buf@.subrange(0, len as int) =~= before.subrange(0, at as int) + before.subrange(
            at as int,
            len as int,
        ));
        assert(buf@.subrange(0, len + 1) =~= text::ascii(status_text(status as int)));
    }
    (buf, len + 1)
}

/// The status file of a child that has ended, ready to be written by a signal
/// handler, which must not allocate.
pub struct StatusFile {
    /// The path, closed by a zero byte.
    pub name: [u8; 64],
    pub name_len: usize,
    pub record: [u8; 16],
    pub record_len: usize,
}

impl StatusFile {
    /// The file is that of a process with a wait status.
    pub open spec fn is_of(self, pid: int, status: int) -> bool {
        &&& self.name_len < 64
        &&& self.name@.subrange(0, self.name_len as int) == status_path(pid)
        &&& self.name@[self.name_len as int] == 0
        &&& self.record_len <= 16
        &&& self.record@.subrange(0, self.record_len as int) == text::ascii(status_text(status))
    }
}

/// What a signal handler does when it has asked for an ended child: write the
/// status of the child to its file and ask again, or stop if there was none.
pub fn on_child_waited(pid: i32, status: i32) -> (file: Option<StatusFile>)
    requires
        status != i32::MIN,
    ensures
        pid <= 0 <==> file is None,
        file matches Some(f) ==> f.is_of(pid as int, status as int),
{
    if pid <= 0 {
        return None;
    }
    let (name, name_len) = status_file_name(pid);
    let (record, record_len) = status_record(status);
    Some(StatusFile { name, name_len, record, record_len })
}

/// The path of the status file of a process.
pub fn status_path_of(pid: i32) -> (path: Vec<u8>)
    ensures
        path@ == status_path(pid as int),
{
    let mut path: Vec<u8> = Vec::new();
    push_raw(&mut path, "/tmp/sandbox-status-".as_bytes());
    if pid < 0 {
        path.push(45);
        push_decimal(&mut path, (-(pid as i64)) as u64);
    } else {
        push_decimal(&mut path, pid as u64);
    }
    assert(path@ =~= status_path(pid as int));
    path
}

/// The status that is read back is the one that was left.
pub proof fn status_reads_back(status: int)
    requires
        i32::MIN <= status <= i32::MAX,
    ensures
        text::signed_number(text::trimmed(status_text(status))) == Some(status),
{
    let d = text::signed_decimal(status);
    let s = status_text(status);
    text::signed_decimal_reads_back(status);
    let m = if status < 0 {
        -status
    } else {
        status
    };
    text::decimal_reads_back(m as nat);
    let digits = text::decimal(m as nat);
    assert(text::is_digit(digits[0]) && text::is_digit(digits[digits.len() - 1]));
    assert(d.last() == digits.last());
    assert(s.last() == '\n');
    assert(s[0] == d[0]);
    assert(!text::is_white_space(d[0]));
    assert(!text::is_white_space(d.last()));
    assert(s.drop_last() =~= d);
    reveal_with_fuel(text::trimmed, 3);
}

// ---- Judging the status ----

/// The exit code of a wait status.
pub open spec fn exit_code(status: i32) -> i32 {
    (status >> 8) & 0xff
}

/// The number of the signal that ended the process, 0 if it exited.
pub open spec fn end_signal(status: i32) -> i32 {
    status & 0x7f
}

/// What a wait status, the number of out-of-memory kills and the system call that
/// the filter has killed for, if it has, say: running out of memory comes first,
/// whatever the status.
pub open spec fn judged(status: i32, oom_kills: nat, blocked: u32) -> (i32, TerminationReason) {
    if oom_kills > 0 {
        (-1i32, TerminationReason::OomKilled)
    } else if end_signal(status) == 0 {
        (exit_code(status), TerminationReason::Exited(exit_code(status)))
    } else if end_signal(status) == SIGSYS {
        (SIGSYS, TerminationReason::SeccompViolation(blocked))
    } else {
        (end_signal(status), TerminationReason::SignalKilled(end_signal(status)))
    }
}

/// Why a process ended, by its wait status, the number of out-of-memory kills and
/// the system call that the filter has killed for, if it has.
pub fn judge_exit(status: i32, oom_kills: u64, blocked: u32) -> (outcome: (
    i32,
    TerminationReason,
))
    ensures
        outcome == judged(status, oom_kills as nat, blocked),
{
    if oom_kills > 0 {
        return (-1, TerminationReason::OomKilled);
    }
    if status & 0x7f == 0 {
        let code: i32 = (status >> 8) & 0xff;
        (code, TerminationReason::Exited(code))
    } else {
        let sig: i32 = status & 0x7f;
        if sig == SIGSYS {
            (sig, TerminationReason::SeccompViolation(blocked))
        } else {
            (sig, TerminationReason::SignalKilled(sig))
        }
    }
}

/// The statuses that the kernel makes are judged by the code or the signal that
/// went into them, whether or not memory was dumped; a kill of the filter is judged
/// with the system call that it was for.
pub proof fn kernel_statuses_are_judged_right(code: i32, signal: i32, dumped: bool, blocked: u32)
    requires
        0 <= code <= 255,
        0 < signal < 0x7f,
    ensures
        judged((code * 256) as i32, 0, blocked) == (code, TerminationReason::Exited(code)),
        judged(
            (signal + if dumped {
                128int
            } else {
                0
            }) as i32,
            0,
            blocked,
        ) == (signal, if signal == SIGSYS {
            TerminationReason::SeccompViolation(blocked)
        } else {
            TerminationReason::SignalKilled(signal)
        }),
{
    let word = (code * 256) as i32;
    assert(word & 0x7f == 0 && (word >> 8) & 0xff == code) by (bit_vector)
        requires
            0 <= code <= 255,
            word == code * 256,
    ;
    let plain = signal;
    let with_dump = (signal + 128) as i32;
    assert(plain & 0x7f == plain) by (bit_vector)
        requires
            0 < plain < 0x7f,
    ;
    assert(with_dump & 0x7f == plain) by (bit_vector)
        requires
            0 < plain < 0x7f,
            with_dump == plain + 128,
    ;
}

/// A child that has stopped by itself is never reported as stopped for lack of
/// time: that is told otherwise.
pub proof fn an_exit_is_no_timeout(status: i32, oom_kills: nat, blocked: u32)
    ensures
        judged(status, oom_kills, blocked).1 != TerminationReason::TimedOut,
        judged(status, oom_kills, blocked).1 != TerminationReason::CgroupKillFallback,
        oom_kills > 0 <==> judged(status, oom_kills, blocked).1 == TerminationReason::OomKilled,
{
}

/// Exit status and reason of a child always say the same.
pub proof fn status_and_reason_agree(status: i32, oom_kills: nat, blocked: u32)
    ensures
        report::agree(
            judged(status, oom_kills, blocked).0,
            judged(status, oom_kills, blocked).1,
        ),
{
}

// ---- Waiting for the status ----

/// What to do next while an exit status is being collected.
pub enum ReapAction {
    /// Try to read the status file.
    ReadStatus,
    /// Wait ten milliseconds.
    Sleep,
    /// Remove the status file, then read the memory events of the cgroup.
    ReadMemoryEvents,
    /// The outcome.
    Done(Result<(i32, TerminationReason), SandboxError>),
}

/// How far the collection of an exit status is.
pub struct Reaper {
    /// How often the status file has been looked for in vain.
    pub misses: u32,
    /// The wait status, once it has been read.
    pub status: Option<i32>,
}

/// The text of a file, if it could be read.
pub open spec fn chars(content: Option<&str>) -> Option<Seq<char>> {
    match content {
        Some(s) => Some(s@),
        None => None,
    }
}

/// What comes of looking for the status file: a pause if it is not there; else its
/// number is the wait status, and text that holds no number ends the collection.
pub open spec fn looked(
    before: Reaper,
    content: Option<Seq<char>>,
    errno: i32,
    after: Reaper,
    action: ReapAction,
) -> bool {
    match content {
        None => {
            &&& after.misses == before.misses + 1
            &&& after.status == before.status
            &&& action is Sleep
        },
        Some(s) => {
            &&& after.misses == before.misses
            &&& match text::signed_number(text::trimmed(s)) {
                Some(status) => after.status is Some && after.status->0 == status
                    && action is ReadMemoryEvents,
                None => after.status == before.status && action == ReapAction::Done(
                    Err(SandboxError::WaitFailed(errno)),
                ),
            }
        },
    }
}

/// What comes after a pause: another look, unless there have been enough.
pub open spec fn woken(misses: u32, errno: i32) -> ReapAction {
    if misses < STATUS_POLLS {
        ReapAction::ReadStatus
    } else {
        ReapAction::Done(Err(SandboxError::WaitFailed(errno)))
    }
}

/// The outcome, by the wait status, the memory events and the blocked system call.
pub open spec fn weighed(status: i32, content: Seq<char>, blocked: u32) -> ReapAction {
    ReapAction::Done(Ok(judged(status, text::named_value(content, "oom_kill"@), blocked)))
}

impl Reaper {
    /// Begins by reading the status file.
    pub fn new() -> (start: (Self, ReapAction))
        ensures
            start.0.misses == 0,
            start.0.status is None,
            start.1 is ReadStatus,
    {
        (Reaper { misses: 0, status: None }, ReapAction::ReadStatus)
    }

    /// The status file has been looked for. If it is there its number is the wait
    /// status; text that holds no number ends the collection with the error
    /// number given.
    pub fn on_status_file(&mut self, content: Option<&str>, errno: i32) -> (action: ReapAction)
        requires
            old(self).misses < STATUS_POLLS,
        ensures
            looked(*old(self), chars(content), errno, *final(self), action),
    {
        match content {
            None => {
                self.misses = self.misses + 1;
                ReapAction::Sleep
            },
            Some(s) => match parse_trimmed_signed(s) {
                Some(status) => {
                    self.status = Some(status);
                    ReapAction::ReadMemoryEvents
                },
                None => ReapAction::Done(Err(SandboxError::WaitFailed(errno))),
            },
        }
    }

    /// The pause is over: look again, unless that has been done often enough.
    pub fn on_wake(&self, errno: i32) -> (action: ReapAction)
        ensures
            action == woken(self.misses, errno),
    {
        if self.misses < STATUS_POLLS {
            ReapAction::ReadStatus
        } else {
            ReapAction::Done(Err(SandboxError::WaitFailed(errno)))
        }
    }

    /// The memory events have been read (empty text if they could not be). `blocked`
    /// is the system call that the filter has killed for, if it has.
    pub fn on_memory_events(&self, content: &str, blocked: u32) -> (action: ReapAction)
        requires
            self.status is Some,
        ensures
            action == weighed(self.status->0, content@, blocked),
    {
        let oom_kills: u64 = parse_named_u64(content, "oom_kill");
        match self.status {
            Some(status) => ReapAction::Done(Ok(judge_exit(status, oom_kills, blocked))),
            None => ReapAction::ReadStatus,
        }
    }
}

/// What the system says while an exit status is being collected.
#[allow(inconsistent_fields)]
pub enum ReapEvent {
    /// The text of the status file, if it is there; else an error number.
    StatusFile { content: Option<Seq<char>>, errno: i32 },
    /// A pause is over.
    Woken { errno: i32 },
    /// The text of the memory events, and the blocked system call.
    MemoryEvents { content: Seq<char>, blocked: u32 },
}

/// A collection up to some point: how far it was, and what it did then.
pub struct Reaping {
    pub reapers: Seq<Reaper>,
    pub actions: Seq<ReapAction>,
    /// What was said to each action but the last.
    pub events: Seq<ReapEvent>,
}

impl Reaping {
    pub open spec fn wf(self) -> bool {
        &&& self.actions.len() == self.events.len() + 1
        &&& self.reapers.len() == self.actions.len()
        &&& self.reapers[0].misses == 0
        &&& self.reapers[0].status is None
        &&& self.actions[0] is ReadStatus
        &&& forall|i: int| 0 <= i < self.events.len() ==> #[trigger] self.goes_on(i)
    }

    /// The `i`-th event leads from one action to the next.
    pub open spec fn goes_on(self, i: int) -> bool {
        let before = self.reapers[i];
        let after = self.reapers[i + 1];
        let next = self.actions[i + 1];
        match (self.actions[i], self.events[i]) {
            (ReapAction::ReadStatus, ReapEvent::StatusFile { content, errno }) => looked(
                before,
                content,
                errno,
                after,
                next,
            ),
            (ReapAction::Sleep, ReapEvent::Woken { errno }) => after == before && next == woken(
                before.misses,
                errno,
            ),
            (ReapAction::ReadMemoryEvents, ReapEvent::MemoryEvents { content, blocked }) => after
                == before && next == weighed(before.status->0, content, blocked),
            _ => false,
        }
    }
}

/// How many looks at the status file some actions hold.
pub open spec fn looks(actions: Seq<ReapAction>) -> nat
    decreases actions.len(),
{
    if actions.len() == 0 {
        0
    } else {
        looks(actions.drop_last()) + if actions.last() is ReadStatus {
            1nat
        } else {
            0nat
        }
    }
}

/// How many pauses some actions hold.
pub open spec fn pauses(actions: Seq<ReapAction>) -> nat
    decreases actions.len(),
{
    if actions.len() == 0 {
        0
    } else {
        pauses(actions.drop_last()) + if actions.last() is Sleep {
            1nat
        } else {
            0nat
        }
    }
}

/// Whatever is found, a collection looks 100 times and pauses 100 times at most, and
/// comes to its end, which is an outcome: no other action is the last, since what it
/// needs is there. If the status file is never found, the outcome is a failure.
pub proof fn reaping_comes_to_an_end(r: Reaping)
    requires
        r.wf(),
    ensures
        looks(r.actions) <= STATUS_POLLS,
        pauses(r.actions) <= STATUS_POLLS,
        r.actions.len() <= 2 * STATUS_POLLS + 1,
        forall|i: int| 0 <= i < r.actions.len() - 1 ==> !(#[trigger] r.actions[i] is Done),
        r.actions.last() is ReadStatus ==> r.reapers.last().misses < STATUS_POLLS,
        r.actions.last() is ReadMemoryEvents ==> r.reapers.last().status is Some,
        pauses(r.actions) == STATUS_POLLS && r.actions.last() is Done ==> (r.actions.last()
            matches ReapAction::Done(Err(SandboxError::WaitFailed(_)))),
{
    let last = r.actions.len() - 1;
    lemma_reaping(r, last);
    assert(r.actions.take(last + 1) =~= r.actions);
    assert forall|i: int| 0 <= i < last implies !(#[trigger] r.actions[i] is Done) by {
        assert(r.goes_on(i));
    }
    if last > 0 {
        assert(r.goes_on(last - 1));
        lemma_reaping(r, last - 1);
    }
}

proof fn lemma_reaping(r: Reaping, i: int)
    requires
        r.wf(),
        0 <= i < r.actions.len(),
    ensures
        ({
            let misses = r.reapers[i].misses;
            let so_far = r.actions.take(i + 1);
            &&& misses <= STATUS_POLLS
            &&& pauses(so_far) == misses
            &&& match r.actions[i] {
                ReapAction::ReadStatus => i == 2 * misses && misses < STATUS_POLLS && looks(so_far)
                    == misses + 1,
                ReapAction::Sleep => i == 2 * misses - 1 && looks(so_far) == misses,
                ReapAction::ReadMemoryEvents => i == 2 * misses + 1 && misses < STATUS_POLLS
                    && looks(so_far) == misses + 1 && r.reapers[i].status is Some,
                ReapAction::Done(_) => i <= 2 * STATUS_POLLS && looks(so_far) <= STATUS_POLLS,
            }
        }),
    decreases i,
{
    assert(r.actions.take(i + 1).drop_last() =~= r.actions.take(i));
    assert(r.actions.take(i + 1).last() == r.actions[i]);
    if i > 0 {
        lemma_reaping(r, i - 1);
        assert(r.goes_on(i - 1));
    } else {
        assert(looks(r.actions.take(0)) == 0);
        assert(pauses(r.actions.take(0)) == 0);
    }
}

// ---- Laws ----

/// The status file of a process is named after it: different processes have
/// different ones, and the number in the name is that of the process.
pub proof fn status_files_are_told_apart(pid: int, other: int)
    requires
        pid > 0,
        other > 0,
    ensures
        status_path(pid).take(20) == "/tmp/sandbox-status-".spec_bytes(),
        files::is_plain_number(status_path(pid).skip(20)),
        files::value_of_digits(status_path(pid).skip(20)) == pid,
        pid != other ==> status_path(pid) != status_path(other),
{
    lemma_prefix();
    files::written_numbers_read_back(0, pid);
    files::written_numbers_read_back(0, other);
    assert(status_path(pid).take(20) =~= "/tmp/sandbox-status-".spec_bytes());
    assert(status_path(pid).skip(20) =~= files::signed_bytes(pid));
    assert(status_path(other).skip(20) =~= files::signed_bytes(other));
}

/// Every wait status is judged by its bits: the lowest seven are the signal, unless
/// they are zero, and then the second byte is the exit code. Kills for lack of memory
/// come before both.
pub proof fn statuses_are_judged_by_their_bits(status: i32, oom_kills: nat, blocked: u32)
    ensures
        ({
            let bits = status as u32 as int;
            let outcome = judged(status, oom_kills, blocked);
            if oom_kills > 0 {
                outcome.0 == -1 && outcome.1 == TerminationReason::OomKilled
            } else if bits % 128 == 0 {
                &&& outcome.0 == (bits / 256) % 256
                &&& outcome.1 == TerminationReason::Exited(outcome.0)
            } else if bits % 128 == 31 {
                &&& outcome.0 == 31
                &&& outcome.1 == TerminationReason::SeccompViolation(blocked)
            } else {
                &&& outcome.0 == bits % 128
                &&& outcome.1 == TerminationReason::SignalKilled(outcome.0)
            }
        }),
{
    let bits = status as u32;
    let signal = status & 0x7f;
    let code = (status >> 8) & 0xff;
    assert(signal as u32 == bits % 128 && 0 <= signal < 128) by (bit_vector)
        requires
            bits == status as u32,
            signal == status & 0x7f,
    ;
    assert(code as u32 == (bits / 256) % 256 && 0 <= code < 256) by (bit_vector)
        requires
            bits == status as u32,
            code == (status >> 8) & 0xff,
    ;
}

/// The outcome of a collection is that of the wait status in the file that was found
/// and of the memory events that were read after it. It is a failure if the file held
/// no number, or had not been found by the hundredth pause, and the error is the one
/// that the system gave then.
pub proof fn outcomes_are_those_of_the_status_found(r: Reaping, n: int)
    requires
        r.wf(),
        0 < n < r.actions.len(),
    ensures
        r.actions[n] matches ReapAction::Done(Ok(outcome)) ==> {
            &&& n >= 2
            &&& r.events[n - 2] matches ReapEvent::StatusFile { content: Some(s), .. }
            &&& text::signed_number(text::trimmed(s)) matches Some(status)
            &&& i32::MIN <= status <= i32::MAX
            &&& r.events[n - 1] matches ReapEvent::MemoryEvents { content, blocked }
            &&& outcome == judged(
                status as i32,
                text::named_value(content, "oom_kill"@),
                blocked,
            )
        },
        r.actions[n] matches ReapAction::Done(Err(error)) ==> {
            ||| {
                &&& r.events[n - 1] matches ReapEvent::StatusFile { content: Some(s), errno }
                &&& text::signed_number(text::trimmed(s)) is None
                &&& error == SandboxError::WaitFailed(errno)
            }
            ||| {
                &&& r.events[n - 1] matches ReapEvent::Woken { errno }
                &&& pauses(r.actions.take(n)) == 100
                &&& error == SandboxError::WaitFailed(errno)
            }
        },
{
    lemma_reaping(r, n - 1);
    assert(r.goes_on(n - 1));
    if n >= 2 {
        lemma_reaping(r, n - 2);
        assert(r.goes_on(n - 2));
    }
}

/// A status file that is found ends the search: the status that was left in it goes
/// with the next action, which is to read the memory events, and one that holds no
/// number is a failure. A file that is not there is looked for again after a pause,
/// until there have been a hundred.
pub proof fn a_status_that_is_found_is_taken(r: Reaping, k: int, status: int)
    requires
        r.wf(),
        0 <= k < r.events.len(),
        i32::MIN <= status <= i32::MAX,
    ensures
        r.events[k] matches ReapEvent::StatusFile { content: Some(s), .. } ==> (s == status_text(
            status,
        ) ==> r.actions[k + 1] is ReadMemoryEvents && r.reapers[k + 1].status == Some(
            status as i32,
        )),
        r.events[k] matches ReapEvent::StatusFile { content: Some(s), errno } ==> {
            &&& text::signed_number(text::trimmed(s)) matches Some(v) ==> r.actions[k
                + 1] is ReadMemoryEvents && r.reapers[k + 1].status is Some && r.reapers[k
                + 1].status->0 == v
            &&& text::signed_number(text::trimmed(s)) is None ==> r.actions[k + 1]
                == ReapAction::Done(Err(SandboxError::WaitFailed(errno)))
        },
        r.events[k] matches ReapEvent::StatusFile { content: None, .. } ==> r.actions[k
            + 1] is Sleep,
        r.events[k] matches ReapEvent::Woken { errno } ==> {
            &&& pauses(r.actions.take(k + 1)) < 100 ==> r.actions[k + 1] is ReadStatus
            &&& pauses(r.actions.take(k + 1)) >= 100 ==> r.actions[k + 1] == ReapAction::Done(
                Err(SandboxError::WaitFailed(errno)),
            )
        },
        r.events[k] is MemoryEvents ==> (r.actions[k + 1] matches ReapAction::Done(Ok(_))),
{
    status_reads_back(status);
    lemma_reaping(r, k);
    assert(r.goes_on(k));
}

/// Text read from the status file is that text.
pub proof fn texts_are_taken_as_read(content: Option<&str>)
    ensures
        content is Some ==> chars(content) == Some(content->0@),
        content is None ==> chars(content) is None,
{
}

/// What a signal handler leaves behind reads back: the name is that of the status file
/// of the process, closed by a zero byte, and the record is the status in decimal and
/// a line feed.
pub proof fn what_is_left_reads_back(f: StatusFile, pid: int, status: int)
    requires
        pid > 0,
        f.is_of(pid, status),
    ensures
        f.name_len > 20,
        f.name@.subrange(0, 20) == "/tmp/sandbox-status-".spec_bytes(),
        files::value_of_digits(f.name@.subrange(20, f.name_len as int)) == pid,
        f.name@[f.name_len as int] == 0,
        f.record_len > 1,
        f.record@[f.record_len - 1] == 10,
        status >= 0 ==> files::value_of_digits(f.record@.subrange(0, f.record_len - 1)) == status,
        status < 0 ==> f.record@[0] == 45 && files::value_of_digits(
            f.record@.subrange(1, f.record_len - 1),
        ) == -status,
{
    lemma_name_reads_back(f.name@, f.name_len as int, pid);
    lemma_record_reads_back(f.record@, f.record_len as int, status);
}

proof fn lemma_name_reads_back(name: Seq<u8>, len: int, pid: int)
    requires
        pid > 0,
        0 <= len < name.len(),
        name.subrange(0, len) == status_path(pid),
    ensures
        len > 20,
        name.subrange(0, 20) == "/tmp/sandbox-status-".spec_bytes(),
        files::value_of_digits(name.subrange(20, len)) == pid,
{
    status_files_are_told_apart(pid, pid);
    let path = name.subrange(0, len);
    lemma_prefix();
    assert(path.len() == 20 + path.skip(20).len());
    assert(path.take(20) =~= name.subrange(0, 20));
    assert(path.skip(20) =~= name.subrange(20, len));
}

proof fn lemma_record_reads_back(record: Seq<u8>, len: int, status: int)
    requires
        0 <= len <= record.len(),
        record.subrange(0, len) == text::ascii(status_text(status)),
    ensures
        len > 1,
        record[len - 1] == 10,
        status >= 0 ==> files::value_of_digits(record.subrange(0, len - 1)) == status,
        status < 0 ==> record[0] == 45 && files::value_of_digits(record.subrange(1, len - 1))
            == -status,
{
    let digits = files::signed_bytes(status);
    lemma_record_bytes(status);
    files::written_numbers_read_back(0, status);
    let all = record.subrange(0, len);
    assert(all == digits.push(10));
    assert(all.len() == len);
    assert(record[len - 1] == all[len - 1]);
    assert(all.drop_last() =~= digits);
    assert(record.subrange(0, len - 1) =~= all.drop_last());
    if status < 0 {
        assert(record[0] == all[0]);
        assert(all[0] == digits[0]);
        assert(record.subrange(1, len - 1) =~= digits.drop_first());
    }
}

proof fn lemma_record_bytes(status: int)
    ensures
        text::ascii(status_text(status)) == files::signed_bytes(status).push(10),
{
    let d = text::signed_decimal(status);
    assert(text::ascii(d.push('\n')) =~= text::ascii(d).push(10));
}

} // verus!
