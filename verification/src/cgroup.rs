//! The cgroup of a run: how it is made, measured, killed and removed.
//!
//! For each run a directory is made below the parent cgroup, and all limits are
//! written to it before any process is started. When the run is over, whichever
//! way it ended, every process that is left is killed and the directory removed.
use vstd::prelude::*;
use vstd::string::*;
use crate::config::SandboxConfig;
use crate::error::{IoFailure, SandboxError};
use crate::files;
use crate::files::{number, push_str, signed, FileWrite};
use crate::paths;
use crate::paths::{bytes_of, copy, join};
use crate::text;
use crate::text::{parse_named_u64, parse_number_or_zero, push_decimal};

verus! {

// ---- Names ----

/// A number for a directory, from the nanoseconds of the clock (none if it shows
/// a time before its origin) and the process id.
pub open spec fn id_of(nanos: Option<u128>, pid: u32) -> u64 {
    (match nanos {
        Some(n) => n as u64,
        None => 0u64,
    }) ^ ((pid as u64) << 48u64)
}

/// A number for a directory.
pub fn unique_id(nanos: Option<u128>, pid: u32) -> (id: u64)
    ensures
        id == id_of(nanos, pid),
{
    let ts: u64 = match nanos {
        Some(n) => n as u64,
        None => 0,
    };
    ts ^ ((pid as u64) << 48u64)
}

/// One process gets different numbers at different times, and different processes
/// with ids below 65536 get different numbers at the same time. (The clock fits
/// 64 bits until the year 2554.)
pub proof fn ids_differ(a: u64, b: u64, pid: u32, other: u32)
    ensures
        a != b ==> id_of(Some(a as u128), pid) != id_of(Some(b as u128), pid),
        pid != other && pid < 0x1_0000 && other < 0x1_0000 ==> id_of(Some(a as u128), pid) != id_of(
            Some(a as u128),
            other,
        ),
{
    let p = (pid as u64) << 48u64;
    assert(a != b ==> a ^ p != b ^ p) by (bit_vector);
    let x = pid as u64;
    let y = other as u64;
    assert(x != y && x < 0x1_0000 && y < 0x1_0000 ==> a ^ (x << 48u64) != a ^ (y << 48u64))
        by (bit_vector);
}

/// The directory of the run with a number.
pub open spec fn run_directory(parent: Seq<u8>, id: u64) -> Seq<u8> {
    paths::below(parent, "sandbox-".spec_bytes() + files::number_bytes(id as nat))
}

/// A file of a cgroup.
#[derive(Clone, Copy, PartialEq, Eq, Structural, Debug)]
pub enum CgroupFile {
    SubtreeControl,
    MemoryMax,
    MemorySwapMax,
    CpuMax,
    PidsMax,
    Kill,
    MemoryPeak,
    CpuStat,
    MemoryEvents,
    PidsCurrent,
    Procs,
}

impl CgroupFile {
    /// The name of the file.
    pub open spec fn spec_name(self) -> &'static str {
        match self {
            CgroupFile::SubtreeControl => "cgroup.subtree_control",
            CgroupFile::MemoryMax => "memory.max",
            CgroupFile::MemorySwapMax => "memory.swap.max",
            CgroupFile::CpuMax => "cpu.max",
            CgroupFile::PidsMax => "pids.max",
            CgroupFile::Kill => "cgroup.kill",
            CgroupFile::MemoryPeak => "memory.peak",
            CgroupFile::CpuStat => "cpu.stat",
            CgroupFile::MemoryEvents => "memory.events",
            CgroupFile::PidsCurrent => "pids.current",
            CgroupFile::Procs => "cgroup.procs",
        }
    }

    /// The name of the file.
    pub fn name(self) -> (name: &'static str)
        ensures
            name == self.spec_name(),
    {
        match self {
            CgroupFile::SubtreeControl => "cgroup.subtree_control",
            CgroupFile::MemoryMax => "memory.max",
            CgroupFile::MemorySwapMax => "memory.swap.max",
            CgroupFile::CpuMax => "cpu.max",
            CgroupFile::PidsMax => "pids.max",
            CgroupFile::Kill => "cgroup.kill",
            CgroupFile::MemoryPeak => "memory.peak",
            CgroupFile::CpuStat => "cpu.stat",
            CgroupFile::MemoryEvents => "memory.events",
            CgroupFile::PidsCurrent => "pids.current",
            CgroupFile::Procs => "cgroup.procs",
        }
    }

    /// The path of the file in a cgroup directory.
    pub open spec fn spec_path(self, directory: Seq<u8>) -> Seq<u8> {
        paths::below(directory, self.spec_name().spec_bytes())
    }

    /// The path of the file in a cgroup directory.
    pub fn path_in(self, directory: &Vec<u8>) -> (path: Vec<u8>)
        ensures
            path@ == self.spec_path(directory@),
    {
        join(directory, self.name().as_bytes())
    }
}

// ---- Making a cgroup ----

/// One step in making a cgroup; `P` holds a byte string.
pub enum CgroupOp<P> {
    /// See whether a file exists and may be opened for writing.
    Probe { path: P },
    /// Write to a file that exists.
    Write { file: CgroupFile, write: FileWrite<P> },
    /// Make a directory.
    MakeDir { path: P },
}

impl View for CgroupOp<Vec<u8>> {
    type V = CgroupOp<Seq<u8>>;

    open spec fn view(&self) -> CgroupOp<Seq<u8>> {
        match *self {
            CgroupOp::Probe { path } => CgroupOp::Probe { path: path@ },
            CgroupOp::Write { file, write } => CgroupOp::Write { file, write: write@ },
            CgroupOp::MakeDir { path } => CgroupOp::MakeDir { path: path@ },
        }
    }
}

/// What the steps of a list say.
pub open spec fn ops_view(ops: Seq<CgroupOp<Vec<u8>>>) -> Seq<CgroupOp<Seq<u8>>> {
    Seq::new(ops.len(), |i: int| ops[i]@)
}

/// Text that is written to a file of a cgroup directory.
pub open spec fn write_op(directory: Seq<u8>, file: CgroupFile, content: Seq<u8>) -> CgroupOp<
    Seq<u8>,
> {
    CgroupOp::Write { file, write: FileWrite { path: file.spec_path(directory), content } }
}

/// The steps that make the cgroup of the run with a number.
pub open spec fn create_ops(config: SandboxConfig, id: u64) -> Seq<CgroupOp<Seq<u8>>> {
    let parent = config.cgroup_parent@;
    let directory = run_directory(parent, id);
    seq![
        CgroupOp::Probe { path: CgroupFile::SubtreeControl.spec_path(parent) },
        write_op(parent, CgroupFile::SubtreeControl, "+memory +cpu +pids".spec_bytes()),
        CgroupOp::MakeDir { path: directory },
        write_op(
            directory,
            CgroupFile::MemoryMax,
            files::number_bytes(config.memory_max_bytes as nat),
        ),
        write_op(directory, CgroupFile::MemorySwapMax, "0".spec_bytes()),
        write_op(
            directory,
            CgroupFile::CpuMax,
            files::number_bytes(config.cpu_quota_us as nat) + " ".spec_bytes()
                + files::number_bytes(config.cpu_period_us as nat),
        ),
        write_op(directory, CgroupFile::PidsMax, files::number_bytes(config.pids_max as nat)),
    ]
}

fn write_of(directory: &Vec<u8>, file: CgroupFile, content: Vec<u8>) -> (op: CgroupOp<Vec<u8>>)
    ensures
        op@ == write_op(directory@, file, content@),
{
    CgroupOp::Write { file, write: FileWrite { path: file.path_in(directory), content } }
}

fn cpu_max(quota_us: u64, period_us: u64) -> (content: Vec<u8>)
    ensures
        content@ == files::number_bytes(quota_us as nat) + " ".spec_bytes() + files::number_bytes(
            period_us as nat,
        ),
{
    let mut content = number(quota_us);
    push_str(&mut content, " ");
    push_decimal(&mut content, period_us);
    content
}

/// A step that went wrong.
pub struct CgroupFault {
    /// The file is not there.
    pub missing: bool,
    /// It is there, but may not be accessed so.
    pub permission_denied: bool,
    /// How the system words it.
    pub failure: IoFailure,
}

/// The error that a step that went wrong ends in.
pub open spec fn fault_error(op: CgroupOp<Seq<u8>>, fault: CgroupFault) -> SandboxError {
    match op {
        CgroupOp::Probe { path } => if fault.missing || fault.permission_denied {
            SandboxError::CgroupDelegationMissing
        } else {
            SandboxError::CgroupCreateFailed(fault.failure)
        },
        CgroupOp::Write { file, write } => SandboxError::CgroupWriteFailed {
            path: file.spec_name(),
            source: fault.failure,
        },
        CgroupOp::MakeDir { path } => SandboxError::CgroupCreateFailed(fault.failure),
    }
}

/// Why a cgroup could not be made.
pub struct SetupFailure {
    pub error: SandboxError,
    /// The directory had been made before, and is left to be removed.
    pub directory_left: bool,
}

/// Some of the first `n` steps makes the directory.
pub open spec fn makes_directory(ops: Seq<CgroupOp<Seq<u8>>>, n: int) -> bool {
    exists|i: int| 0 <= i < n && #[trigger] ops[i] is MakeDir
}

/// How far the making of a cgroup has come.
pub struct CgroupSetup {
    /// The directory that is being made.
    pub path: Vec<u8>,
    pub ops: Vec<CgroupOp<Vec<u8>>>,
    /// The step that comes next.
    pub next: usize,
}

/// What comes of the pending step: the next one, or, if it has gone wrong, the end.
pub open spec fn stepped(
    before: CgroupSetup,
    fault: Option<CgroupFault>,
    after: CgroupSetup,
    outcome: Result<(), SetupFailure>,
) -> bool {
    &&& after.path == before.path
    &&& after.ops == before.ops
    &&& match fault {
        None => outcome is Ok && after.next == before.next + 1,
        Some(fault) => {
            &&& outcome matches Err(failure)
            &&& failure.error == fault_error(before.ops@[before.next as int]@, fault)
            &&& failure.directory_left == makes_directory(
                ops_view(before.ops@),
                before.next as int,
            )
            &&& after.next == before.next
        },
    }
}

impl CgroupSetup {
    /// Nothing has been done yet.
    pub fn create(config: &SandboxConfig, id: u64) -> (setup: Self)
        ensures
            setup.path@ == run_directory(config.cgroup_parent@, id),
            ops_view(setup.ops@) == create_ops(*config, id),
            setup.next == 0,
    {
        let parent = &config.cgroup_parent;
        let mut name = bytes_of("sandbox-");
        push_decimal(&mut name, id);
        let directory = join(parent, name.as_slice());
        let mut ops: Vec<CgroupOp<Vec<u8>>> = Vec::new();
        ops.push(CgroupOp::Probe { path: CgroupFile::SubtreeControl.path_in(parent) });
        ops.push(write_of(parent, CgroupFile::SubtreeControl, bytes_of("+memory +cpu +pids")));
        ops.push(CgroupOp::MakeDir { path: copy(&directory) });
        ops.push(write_of(&directory, CgroupFile::MemoryMax, number(config.memory_max_bytes)));
        ops.push(write_of(&directory, CgroupFile::MemorySwapMax, bytes_of("0")));
        ops.push(
            write_of(
                &directory,
                CgroupFile::CpuMax,
                cpu_max(config.cpu_quota_us, config.cpu_period_us),
            ),
        );
        ops.push(write_of(&directory, CgroupFile::PidsMax, number(config.pids_max as u64)));
        assert(ops_view(ops@) =~= create_ops(*config, id));
        CgroupSetup { path: directory, ops, next: 0 }
    }

    /// The step to carry out now; none if the cgroup is ready.
    pub fn pending(&self) -> (op: Option<&CgroupOp<Vec<u8>>>)
        ensures
            op == if self.next < self.ops@.len() {
                Some(&self.ops@[self.next as int])
            } else {
                None
            },
    {
        if self.next < self.ops.len() {
            Some(&self.ops[self.next])
        } else {
            None
        }
    }

    /// Whether one of the steps that have been carried out made the directory.
    fn directory_made(&self) -> (made: bool)
        requires
            self.next <= self.ops@.len(),
        ensures
            made == makes_directory(ops_view(self.ops@), self.next as int),
    {
        let ghost ops = ops_view(self.ops@);
        let mut i: usize = 0;
        while i < self.next
            invariant
                i <= self.next <= self.ops@.len(),
                ops == ops_view(self.ops@),
                forall|j: int| 0 <= j < i ==> !(#[trigger] ops[j] is MakeDir),
            decreases self.next - i,
        {
            assert(ops[i as int] == self.ops@[i as int]@);
            match &self.ops[i] {
                CgroupOp::MakeDir { path: _ } => {
                    assert(ops[i as int] is MakeDir);
                    return true;
                },
                _ => {},
            }
            i += 1;
        }
        false
    }

    /// The pending step has been carried out, or has gone wrong, which is the end.
    pub fn on_step(&mut self, fault: Option<CgroupFault>) -> (outcome: Result<(), SetupFailure>)
        requires
            old(self).next < old(self).ops@.len(),
        ensures
            stepped(*old(self), fault, *final(self), outcome),
    {
        let total: usize = self.ops.len();
        assert(self.next < total);
        let fault = match fault {
            None => {
                self.next = self.next + 1;
                return Ok(());
            },
            Some(fault) => fault,
        };
        let directory_left = self.directory_made();
        let error = match &self.ops[self.next] {
            CgroupOp::Probe { path: _ } => if fault.missing || fault.permission_denied {
                SandboxError::CgroupDelegationMissing
            } else {
                SandboxError::CgroupCreateFailed(fault.failure)
            },
            CgroupOp::Write { file, write: _ } => SandboxError::CgroupWriteFailed {
                path: file.name(),
                source: fault.failure,
            },
            CgroupOp::MakeDir { path: _ } => SandboxError::CgroupCreateFailed(fault.failure),
        };
        Err(SetupFailure { error, directory_left })
    }
}

/// A directory is left behind exactly by a limit that could not be written: nothing
/// that goes wrong before, missing delegation above all, leaves anything.
pub proof fn failed_limits_leave_the_directory(config: SandboxConfig, id: u64, i: int)
    requires
        0 <= i < create_ops(config, id).len(),
    ensures
        makes_directory(create_ops(config, id), i) <==> i > 2,
{
    assert(create_ops(config, id)[2] is MakeDir);
}

/// Delegation is checked first of all. Only the controllers are switched on in
/// the parent; every limit goes into the new directory, and after it was made.
pub proof fn limits_go_into_the_new_directory(config: SandboxConfig, id: u64, i: int)
    requires
        0 <= i < create_ops(config, id).len(),
    ensures
        create_ops(config, id)[0] is Probe,
        create_ops(config, id)[i] is MakeDir <==> i == 2,
        create_ops(config, id)[i] matches CgroupOp::Write { file, write } ==> {
            let directory = if i < 2 {
                config.cgroup_parent@
            } else {
                run_directory(config.cgroup_parent@, id)
            };
            &&& write.path == file.spec_path(directory)
            &&& i < 2 <==> file == CgroupFile::SubtreeControl
        },
{
}

// ---- A cgroup that is there ----

/// The path of a process' cgroup, and what is written there to let it join.
pub open spec fn join_write(cgroup_path: Seq<u8>, pid: int) -> FileWrite<Seq<u8>> {
    FileWrite {
        path: CgroupFile::Procs.spec_path(cgroup_path),
        content: files::signed_bytes(pid),
    }
}

/// The write that puts a process into a cgroup.
pub fn write_cgroup_procs(path: &Vec<u8>, pid: i32) -> (write: FileWrite<Vec<u8>>)
    ensures
        write@ == join_write(path@, pid as int),
{
    FileWrite { path: CgroupFile::Procs.path_in(path), content: signed(pid) }
}

/// What is written to kill every process of a cgroup at once.
pub open spec fn kill_write(path: Seq<u8>) -> FileWrite<Seq<u8>> {
    FileWrite { path: CgroupFile::Kill.spec_path(path), content: "1".spec_bytes() }
}

/// The write that kills every process of a cgroup.
pub fn kill_all(path: &Vec<u8>) -> (write: FileWrite<Vec<u8>>)
    ensures
        write@ == kill_write(path@),
{
    FileWrite { path: CgroupFile::Kill.path_in(path), content: bytes_of("1") }
}

/// What it means that the kill did not go through.
pub fn kill_failed(failure: IoFailure) -> (error: SandboxError)
    ensures
        error == (SandboxError::CgroupWriteFailed {
            path: CgroupFile::Kill.spec_name(),
            source: failure,
        }),
{
    SandboxError::CgroupWriteFailed { path: CgroupFile::Kill.name(), source: failure }
}

/// The text of a file; a file that cannot be read counts as empty.
pub open spec fn text_of(content: Option<&str>) -> Seq<char> {
    match content {
        Some(s) => s@,
        None => Seq::empty(),
    }
}

fn or_empty(content: Option<&str>) -> (s: &str)
    ensures
        s@ == text_of(content),
{
    match content {
        Some(s) => s,
        None => {
            proof {
                reveal_strlit("");
            }
            assert(""@ =~= Seq::<char>::empty());
            ""
        },
    }
}

/// The peak memory use in bytes that `memory.peak` tells of.
pub fn peak_memory_bytes(content: Option<&str>) -> (bytes: u64)
    ensures
        bytes == text::number_or_zero(text_of(content)),
{
    parse_number_or_zero(or_empty(content))
}

/// The processor time in microseconds that `cpu.stat` tells of.
pub fn parse_cpu_stat(content: Option<&str>) -> (us: u64)
    ensures
        us == text::named_value(text_of(content), "usage_usec"@),
{
    parse_named_u64(or_empty(content), "usage_usec")
}

/// The number of processes that `pids.current` tells of.
pub open spec fn pids_told(content: Option<&str>) -> nat {
    text::number_or_zero(text_of(content))
}

/// The number of processes that `pids.current` tells of.
pub fn current_pids(content: Option<&str>) -> (pids: u64)
    ensures
        pids == pids_told(content),
{
    parse_number_or_zero(or_empty(content))
}

// ---- Removing a cgroup ----

/// How often the number of processes is looked at before the directory is removed
/// come what may.
pub const EMPTY_POLLS: u32 = 500;

/// What to do next while a cgroup is being removed.
#[derive(Clone, Copy, PartialEq, Eq, Structural, Debug)]
pub enum RemovalAction {
    /// Kill whatever is left in the cgroup; whether that succeeds does not matter.
    Kill,
    /// Read `pids.current`.
    ReadPids,
    /// Wait ten milliseconds.
    Sleep,
    /// Remove the directory, which is the end.
    RemoveDir,
}

/// How far the removal of a cgroup is.
pub struct CgroupRemoval {
    /// How often processes have been found in the cgroup.
    pub polls: u32,
}

/// What comes after a pause, or after the kill.
pub open spec fn after_pause(polls: nat) -> RemovalAction {
    if polls < EMPTY_POLLS {
        RemovalAction::ReadPids
    } else {
        RemovalAction::RemoveDir
    }
}

/// What comes after a look at the number of processes.
pub open spec fn after_look(polls: nat, pids: nat) -> (nat, RemovalAction) {
    if pids == 0 {
        (polls, RemovalAction::RemoveDir)
    } else {
        (polls + 1, RemovalAction::Sleep)
    }
}

impl CgroupRemoval {
    /// Begins with killing what is left.
    pub fn new() -> (start: (Self, RemovalAction))
        ensures
            start.0.polls == 0,
            start.1 == RemovalAction::Kill,
    {
        (CgroupRemoval { polls: 0 }, RemovalAction::Kill)
    }

    /// The kill has been written, or a pause is over: look at the processes, unless
    /// that has been done often enough.
    pub fn on_wake(&self) -> (action: RemovalAction)
        ensures
            action == after_pause(self.polls as nat),
    {
        if self.polls < EMPTY_POLLS {
            RemovalAction::ReadPids
        } else {
            RemovalAction::RemoveDir
        }
    }

    /// `pids.current` has been read: an empty cgroup can be removed.
    pub fn on_pids(&mut self, content: Option<&str>) -> (action: RemovalAction)
        requires
            old(self).polls < EMPTY_POLLS,
        ensures
            (final(self).polls as nat, action) == after_look(
                old(self).polls as nat,
                pids_told(content),
            ),
    {
        if current_pids(content) == 0 {
            RemovalAction::RemoveDir
        } else {
            self.polls = self.polls + 1;
            RemovalAction::Sleep
        }
    }
}

/// An action follows from the one before it, which was not the last.
pub open spec fn goes_on(
    actions: Seq<RemovalAction>,
    polls: Seq<nat>,
    pids: Seq<nat>,
    i: int,
) -> bool {
    &&& actions[i - 1] != RemovalAction::RemoveDir
    &&& (polls[i], actions[i]) == match actions[i - 1] {
        RemovalAction::ReadPids => after_look(polls[i - 1], pids[i - 1]),
        _ => (polls[i - 1], after_pause(polls[i - 1])),
    }
}

/// A removal up to some point: its actions, how often processes had been found by
/// then, and what `pids.current` showed where it was read.
pub open spec fn is_removal(
    actions: Seq<RemovalAction>,
    polls: Seq<nat>,
    pids: Seq<nat>,
) -> bool {
    &&& actions.len() >= 1
    &&& polls.len() == actions.len()
    &&& pids.len() == actions.len()
    &&& actions[0] == RemovalAction::Kill
    &&& polls[0] == 0
    &&& forall|i: int| 0 < i < actions.len() ==> #[trigger] goes_on(actions, polls, pids, i)
}

/// How many pauses some actions hold.
pub open spec fn pauses(actions: Seq<RemovalAction>) -> nat
    decreases actions.len(),
{
    if actions.len() == 0 {
        0
    } else {
        pauses(actions.drop_last()) + if actions.last() == RemovalAction::Sleep {
            1nat
        } else {
            0nat
        }
    }
}

/// Whatever processes are found, a removal begins with the kill, pauses 500 times at
/// most and comes to its end, which is the removal of the directory, done once.
pub proof fn removals_come_to_an_end(
    actions: Seq<RemovalAction>,
    polls: Seq<nat>,
    pids: Seq<nat>,
)
    requires
        is_removal(actions, polls, pids),
    ensures
        actions[0] == RemovalAction::Kill,
        pauses(actions) <= EMPTY_POLLS,
        actions.len() <= 2 * EMPTY_POLLS + 2,
        forall|i: int|
            0 <= i < actions.len() - 1 ==> #[trigger] actions[i] != RemovalAction::RemoveDir,
{
    lemma_removal(actions, polls, pids, actions.len() - 1);
    assert(actions.take(actions.len() as int) =~= actions);
    assert forall|i: int| 0 <= i < actions.len() - 1 implies #[trigger] actions[i]
        != RemovalAction::RemoveDir by {
        assert(goes_on(actions, polls, pids, i + 1));
    }
}

proof fn lemma_removal(
    actions: Seq<RemovalAction>,
    polls: Seq<nat>,
    pids: Seq<nat>,
    i: int,
)
    requires
        is_removal(actions, polls, pids),
        0 <= i < actions.len(),
    ensures
        pauses(actions.take(i + 1)) == polls[i],
        polls[i] <= EMPTY_POLLS,
        match actions[i] {
            RemovalAction::Kill => i == 0 && polls[i] == 0,
            RemovalAction::ReadPids => i == 2 * polls[i] + 1 && polls[i] < EMPTY_POLLS,
            RemovalAction::Sleep => i == 2 * polls[i] && polls[i] >= 1,
            RemovalAction::RemoveDir => i <= 2 * EMPTY_POLLS + 1,
        },
    decreases i,
{
    assert(actions.take(i + 1).drop_last() =~= actions.take(i));
    assert(actions.take(i + 1).last() == actions[i]);
    if i > 0 {
        lemma_removal(actions, polls, pids, i - 1);
        assert(goes_on(actions, polls, pids, i));
    } else {
        assert(pauses(actions.take(0)) == 0);
    }
}

/// Text read from a file is that text; a file that cannot be read counts as empty.
pub proof fn texts_are_taken_as_read(content: Option<&str>)
    ensures
        content is Some ==> text_of(content) == content->0@,
        content is None ==> text_of(content).len() == 0,
{
}

/// What is written to `cpu.max` is two numbers with a space between them.
pub open spec fn is_pair_of_numbers(content: Seq<u8>, first: nat, second: nat) -> bool {
    exists|k: int|
        {
            &&& 0 < k < content.len() - 1
            &&& #[trigger] content[k] == 32
            &&& files::is_plain_number(content.take(k))
            &&& files::value_of_digits(content.take(k)) == first
            &&& files::is_plain_number(content.skip(k + 1))
            &&& files::value_of_digits(content.skip(k + 1)) == second
        }
}

/// A step writes a text that reads back as a number to a file of a directory.
pub open spec fn writes_number(
    op: CgroupOp<Seq<u8>>,
    directory: Seq<u8>,
    name: &str,
    n: nat,
) -> bool {
    &&& op matches CgroupOp::Write { file, write }
    &&& write.path == paths::below(directory, name.spec_bytes())
    &&& files::is_plain_number(write.content)
    &&& files::value_of_digits(write.content) == n
}

/// The limits of the configuration are those that are written: what goes into
/// `memory.max`, `memory.swap.max`, `cpu.max` and `pids.max` of the new directory
/// reads back as the memory in bytes, zero, the processor time for each period, and
/// the number of processes; there are no other steps but to see whether delegation is
/// there, to switch the three controllers on, and to make the directory.
pub proof fn limits_read_back(config: SandboxConfig, id: u64)
    ensures
        ({
            let ops = create_ops(config, id);
            let parent = config.cgroup_parent@;
            let directory = run_directory(parent, id);
            let control = paths::below(parent, "cgroup.subtree_control".spec_bytes());
            &&& ops.len() == 7
            &&& ops[0] == CgroupOp::Probe { path: control }
            &&& ops[1] matches CgroupOp::Write { file, write }
            &&& file == CgroupFile::SubtreeControl
            &&& write.path == control
            &&& write.content == "+memory +cpu +pids".spec_bytes()
            &&& ops[2] == CgroupOp::MakeDir { path: directory }
            &&& writes_number(ops[3], directory, "memory.max", config.memory_max_bytes as nat)
            &&& writes_number(ops[4], directory, "memory.swap.max", 0)
            &&& ops[5] matches CgroupOp::Write { file, write }
            &&& file == CgroupFile::CpuMax
            &&& write.path == paths::below(directory, "cpu.max".spec_bytes())
            &&& is_pair_of_numbers(
                write.content,
                config.cpu_quota_us as nat,
                config.cpu_period_us as nat,
            )
            &&& writes_number(ops[6], directory, "pids.max", config.pids_max as nat)
        }),
{
    files::written_numbers_read_back(config.memory_max_bytes as nat, 0);
    files::written_numbers_read_back(config.pids_max as nat, 0);
    files::written_numbers_read_back(config.cpu_quota_us as nat, 0);
    files::written_numbers_read_back(config.cpu_period_us as nat, 0);
    reveal_strlit("0");
    is_ascii_spec_bytes("0");
    let zero = "0".spec_bytes();
    assert(zero =~= seq![48u8]);
    assert(zero.drop_last() =~= Seq::<u8>::empty());
    reveal_with_fuel(files::value_of_digits, 2);
    reveal_strlit(" ");
    is_ascii_spec_bytes(" ");
    let quota = files::number_bytes(config.cpu_quota_us as nat);
    let period = files::number_bytes(config.cpu_period_us as nat);
    let content = quota + " ".spec_bytes() + period;
    let k = quota.len() as int;
    assert(" ".spec_bytes() =~= seq![32u8]);
    assert(content[k] == 32);
    assert(content.take(k) =~= quota);
    assert(content.skip(k + 1) =~= period);
}

/// Configurations that ask for different limits never get the same steps.
pub proof fn different_limits_are_written_differently(a: SandboxConfig, b: SandboxConfig, id: u64)
    requires
        create_ops(a, id) == create_ops(b, id),
    ensures
        a.memory_max_bytes == b.memory_max_bytes,
        a.cpu_quota_us == b.cpu_quota_us,
        a.cpu_period_us == b.cpu_period_us,
        a.pids_max == b.pids_max,
{
    limits_read_back(a, id);
    limits_read_back(b, id);
    let quota_a = files::number_bytes(a.cpu_quota_us as nat);
    let quota_b = files::number_bytes(b.cpu_quota_us as nat);
    let period_a = files::number_bytes(a.cpu_period_us as nat);
    let period_b = files::number_bytes(b.cpu_period_us as nat);
    files::written_numbers_read_back(a.cpu_quota_us as nat, a.cpu_period_us as int);
    files::written_numbers_read_back(b.cpu_quota_us as nat, b.cpu_period_us as int);
    files::written_numbers_read_back(a.cpu_period_us as nat, 0);
    files::written_numbers_read_back(b.cpu_period_us as nat, 0);
    reveal_strlit(" ");
    is_ascii_spec_bytes(" ");
    assert(" ".spec_bytes() =~= seq![32u8]);
    let content = quota_a + " ".spec_bytes() + period_a;
    assert(create_ops(a, id)[5]->write.content == create_ops(b, id)[5]->write.content);
    assert(content == quota_b + " ".spec_bytes() + period_b);
    let ka = quota_a.len() as int;
    let kb = quota_b.len() as int;
    assert(content[ka] == 32 && content[kb] == 32);
    if ka < kb {
        assert(content[ka] == quota_b[ka]);
    } else if kb < ka {
        assert(content[kb] == quota_a[kb]);
    }
    assert(content.take(ka) =~= quota_a);
    assert(content.take(kb) =~= quota_b);
    assert(content.skip(ka + 1) =~= period_a);
    assert(content.skip(kb + 1) =~= period_b);
}

/// The directory of a run is made right below the parent, and its name ends with the
/// number of the run, so that different runs have different directories.
pub proof fn runs_have_directories_of_their_own(parent: Seq<u8>, id: u64, other: u64)
    ensures
        exists|digits: Seq<u8>|
            {
                &&& files::is_plain_number(digits)
                &&& files::value_of_digits(digits) == id
                &&& run_directory(parent, id) == #[trigger] paths::below(
                    parent,
                    "sandbox-".spec_bytes() + digits,
                )
            },
        id != other ==> run_directory(parent, id) != run_directory(parent, other),
{
    let prefix = "sandbox-".spec_bytes();
    let digits = files::number_bytes(id as nat);
    let digits2 = files::number_bytes(other as nat);
    files::written_numbers_read_back(id as nat, 0);
    files::written_numbers_read_back(other as nat, 0);
    assert(run_directory(parent, id) == paths::below(parent, prefix + digits));
    assert(run_directory(parent, other) == paths::below(parent, prefix + digits2));
    if run_directory(parent, id) == run_directory(parent, other) {
        lemma_sandbox_prefix();
        lemma_same_end(parent, prefix, digits, digits2);
    }
}

proof fn lemma_sandbox_prefix()
    ensures
        "sandbox-".spec_bytes().len() == 8,
        "sandbox-".spec_bytes()[0] == 115,
{
    reveal_strlit("sandbox-");
    is_ascii_spec_bytes("sandbox-");
}

/// Names that begin alike and are the same below a directory end alike.
proof fn lemma_same_end(parent: Seq<u8>, prefix: Seq<u8>, a: Seq<u8>, b: Seq<u8>)
    requires
        prefix.len() > 0,
        prefix[0] != 47,
        paths::below(parent, prefix + a) == paths::below(parent, prefix + b),
    ensures
        a == b,
{
    let d = paths::below(parent, prefix + a);
    assert((prefix + a)[0] == prefix[0]);
    assert((prefix + b)[0] == prefix[0]);
    paths::below_keeps_both_names(parent, prefix + a);
    paths::below_keeps_both_names(parent, prefix + b);
    assert(a.len() == b.len());
    let n = d.len() - a.len();
    assert forall|i: int| 0 <= i < a.len() implies a[i] == b[i] by {
        assert((prefix + a)[prefix.len() + i] == a[i]);
        assert((prefix + b)[prefix.len() + i] == b[i]);
    }
    assert(a =~= b);
}

/// A process joins a cgroup by its number, written to `cgroup.procs` there, and all
/// processes of a cgroup are killed by a one, written to its `cgroup.kill`.
pub proof fn joins_and_kills_read_back(directory: Seq<u8>, pid: int)
    requires
        pid >= 0,
    ensures
        join_write(directory, pid).path == paths::below(directory, "cgroup.procs".spec_bytes()),
        files::is_plain_number(join_write(directory, pid).content),
        files::value_of_digits(join_write(directory, pid).content) == pid,
        kill_write(directory).path == paths::below(directory, "cgroup.kill".spec_bytes()),
        kill_write(directory).content == seq![49u8],
{
    files::written_numbers_read_back(0, pid);
    reveal_strlit("1");
    is_ascii_spec_bytes("1");
    assert("1".spec_bytes() =~= seq![49u8]);
}

/// A step that went wrong is reported with what the system said of it: as missing
/// delegation where the parent's control file is not there or not to be written, and
/// else as what the step was to do.
pub proof fn faults_name_their_step(op: CgroupOp<Seq<u8>>, fault: CgroupFault)
    ensures
        op is Probe && (fault.missing || fault.permission_denied) <==> fault_error(op, fault)
            is CgroupDelegationMissing,
        op is MakeDir || (op is Probe && !fault.missing && !fault.permission_denied)
            <==> fault_error(op, fault) == SandboxError::CgroupCreateFailed(fault.failure),
        op matches CgroupOp::Write { file, write } ==> fault_error(op, fault)
            == (SandboxError::CgroupWriteFailed {
            path: file.spec_name(),
            source: fault.failure,
        }),
{
}

/// A cgroup is removed as soon as no process is found in it, and else only after 500
/// pauses; each time that processes are found there is a pause before the next look.
pub proof fn directories_are_removed_when_empty(
    actions: Seq<RemovalAction>,
    polls: Seq<nat>,
    pids: Seq<nat>,
    i: int,
)
    requires
        is_removal(actions, polls, pids),
        0 < i < actions.len(),
    ensures
        actions[i - 1] == RemovalAction::ReadPids && pids[i - 1] == 0 ==> actions[i]
            == RemovalAction::RemoveDir,
        actions[i - 1] == RemovalAction::ReadPids && pids[i - 1] > 0 ==> actions[i]
            == RemovalAction::Sleep,
        actions[i] == RemovalAction::RemoveDir ==> (actions[i - 1] == RemovalAction::ReadPids
            && pids[i - 1] == 0) || pauses(actions.take(i)) == 500,
        actions[i] == RemovalAction::ReadPids ==> pauses(actions.take(i)) < 500,
        i == 1 ==> actions[i] == RemovalAction::ReadPids,
{
    assert(goes_on(actions, polls, pids, i));
    lemma_removal(actions, polls, pids, i - 1);
    lemma_removal(actions, polls, pids, i);
}

/// Lists of steps are taken as they are: as many, in order.
pub proof fn steps_are_taken_as_they_are(ops: Seq<CgroupOp<Vec<u8>>>, i: int)
    ensures
        ops_view(ops).len() == ops.len(),
        0 <= i < ops.len() ==> ops_view(ops)[i] == ops[i]@,
{
}

/// What is said of a step is what it holds.
pub proof fn a_step_is_taken_as_it_is(op: CgroupOp<Vec<u8>>)
    ensures
        op matches CgroupOp::Probe { path } ==> op@ == (CgroupOp::Probe { path: path@ }),
        op matches CgroupOp::MakeDir { path } ==> op@ == (CgroupOp::MakeDir { path: path@ }),
        op matches CgroupOp::Write { file, write } ==> {
            &&& op@ matches CgroupOp::Write { file: f, write: w }
            &&& f == file
            &&& w.path == write.path@
            &&& w.content == write.content@
        },
{
}

/// The number of processes is read back from what the kernel writes; a file that
/// cannot be read counts as none, so that a cgroup that is gone is not waited for.
pub proof fn process_counts_are_read_back(n: nat, content: Option<&str>)
    requires
        n <= u64::MAX,
    ensures
        content matches Some(s) ==> (s@ == text::decimal(n) + seq!['\n'] ==> pids_told(content)
            == n),
        content is None ==> pids_told(content) == 0,
{
    let none = Seq::<char>::empty();
    assert(text::decimal(n) + seq!['\n'] =~= none + text::decimal(n) + seq!['\n']);
    text::numbers_are_read_back(none, n, seq!['\n']);
    assert(text::trimmed(none) == none);
}

/// The number of a directory is the clock, apart from the bits that tell processes
/// apart, and the clock counts as zero where it shows a time before its origin.
pub proof fn ids_hold_the_clock(nanos: u64, pid: u32)
    ensures
        id_of(Some(nanos as u128), 0) == nanos,
        id_of(None, pid) == id_of(Some(0), pid),
        id_of(Some(nanos as u128), pid) % 0x1_0000_0000_0000 == nanos % 0x1_0000_0000_0000,
{
    let wide = pid as u64;
    assert(nanos ^ (0u64 << 48u64) == nanos && (nanos ^ (wide << 48u64)) % 0x1_0000_0000_0000u64
        == nanos % 0x1_0000_0000_0000u64) by (bit_vector);
    assert((nanos as u128) as u64 == nanos);
}

/// Each file of a cgroup lies right in its directory, under its own name.
pub proof fn files_have_their_names(directory: Seq<u8>)
    ensures
        CgroupFile::SubtreeControl.spec_path(directory) == paths::below(
            directory,
            "cgroup.subtree_control".spec_bytes(),
        ),
        CgroupFile::MemoryMax.spec_path(directory) == paths::below(
            directory,
            "memory.max".spec_bytes(),
        ),
        CgroupFile::MemorySwapMax.spec_path(directory) == paths::below(
            directory,
            "memory.swap.max".spec_bytes(),
        ),
        CgroupFile::CpuMax.spec_path(directory) == paths::below(directory, "cpu.max".spec_bytes()),
        CgroupFile::PidsMax.spec_path(directory) == paths::below(
            directory,
            "pids.max".spec_bytes(),
        ),
        CgroupFile::Kill.spec_path(directory) == paths::below(
            directory,
            "cgroup.kill".spec_bytes(),
        ),
        CgroupFile::MemoryPeak.spec_path(directory) == paths::below(
            directory,
            "memory.peak".spec_bytes(),
        ),
        CgroupFile::CpuStat.spec_path(directory) == paths::below(
            directory,
            "cpu.stat".spec_bytes(),
        ),
        CgroupFile::MemoryEvents.spec_path(directory) == paths::below(
            directory,
            "memory.events".spec_bytes(),
        ),
        CgroupFile::PidsCurrent.spec_path(directory) == paths::below(
            directory,
            "pids.current".spec_bytes(),
        ),
        CgroupFile::Procs.spec_path(directory) == paths::below(
            directory,
            "cgroup.procs".spec_bytes(),
        ),
{
}

/// Every fault ends the setup, and nothing else does; a step that went well is followed
/// by the very next one. The steps that make the cgroup of a run leave its directory
/// behind exactly if they fail at one of the limits.
pub proof fn every_fault_ends_the_setup(
    config: SandboxConfig,
    id: u64,
    before: CgroupSetup,
    fault: Option<CgroupFault>,
    after: CgroupSetup,
    outcome: Result<(), SetupFailure>,
)
    requires
        ops_view(before.ops@) == create_ops(config, id),
        before.next < 7,
        stepped(before, fault, after, outcome),
    ensures
        outcome is Ok <==> fault is None,
        fault is None ==> after.next == before.next + 1,
        fault is Some ==> after.next == before.next,
        after.ops == before.ops,
        after.path == before.path,
        outcome matches Err(failure) ==> {
            &&& failure.directory_left <==> before.next >= 3
            &&& before.next == 0 && (fault->0.missing || fault->0.permission_denied)
                <==> failure.error is CgroupDelegationMissing
            &&& before.next == 1 || before.next >= 3 <==> failure.error is CgroupWriteFailed
        },
{
    failed_limits_leave_the_directory(config, id, before.next as int);
    assert(ops_view(before.ops@).len() == before.ops@.len());
    assert(ops_view(before.ops@)[before.next as int] == before.ops@[before.next as int]@);
    assert(create_ops(config, id).len() == 7);
}

} // verus!
