//! One sandboxed run from beginning to end.
//!
//! A run makes its cgroup, opens a terminal, asks the fork server for the child,
//! sees whether the child could set itself up, collects its output, waits until it
//! is gone, kills it if its time is up, removes the cgroup, whichever way the run
//! ends, and reports. `run` decides what comes next; its caller does it and tells
//! what came of it. Times are readings of one clock that never goes back.
use vstd::prelude::*;
use vstd::string::*;
use crate::cgroup;
use crate::cgroup::{kill_all, kill_failed, parse_cpu_stat, peak_memory_bytes};
use crate::cgroup::{CgroupFile, CgroupSetup, SetupFailure};
use crate::collect::{Collector, Ending};
use crate::config::SandboxConfig;
use crate::error::{ChildStage, IoFailure, SandboxError};
use crate::files::FileWrite;
use crate::fork_server::SpawnResponse;
use crate::ipc::SpawnRequest;
use crate::namespace;
use crate::namespace::child_failure;
use crate::paths;
use crate::paths::copy;
use crate::report;
use crate::report::{ExecutionReport, TerminationReason, TimeSpan};
use crate::request;
use crate::request::build_request;
use crate::text;

verus! {

/// A child that has been started.
pub struct Running {
    pub cgroup_path: Vec<u8>,
    pub child: SpawnResponse,
    /// When the fork server was asked for the child.
    pub requested_at: TimeSpan,
}

/// What a child has put out.
pub struct Streams {
    pub stdout: Vec<u8>,
    pub stderr: Vec<u8>,
}

/// What a run waits for, and what it knows by then.
pub enum RunState {
    /// The cgroup to be made.
    Cgroup { config: SandboxConfig, cgroup_path: Vec<u8> },
    /// A terminal.
    Terminal { config: SandboxConfig, cgroup_path: Vec<u8> },
    /// The user and the group of this process.
    Ids { config: SandboxConfig, cgroup_path: Vec<u8> },
    /// The child.
    Spawn { ttl: TimeSpan, cgroup_path: Vec<u8> },
    /// Whether the child has become the program.
    ErrorPipe { ttl: TimeSpan, running: Running },
    /// The output of the program, which was found running at a time.
    Output { ttl: TimeSpan, started_at: TimeSpan, running: Running },
    /// The program to be gone, both its streams having ended.
    Exit { running: Running, streams: Streams },
    /// The cgroup to be killed.
    Kill { running: Running, streams: Streams },
    /// The program, which was killed, to be gone.
    Gone { running: Running, streams: Streams },
    /// The exit status of the program.
    Status { cgroup_path: Vec<u8>, wall_time: TimeSpan, streams: Streams },
    /// The figures of the cgroup.
    Figures {
        cgroup_path: Vec<u8>,
        wall_time: TimeSpan,
        exit_status: i32,
        reason: TerminationReason,
        streams: Streams,
    },
    /// The cgroup to be removed.
    Removal { result: Result<ExecutionReport, SandboxError> },
    /// Nothing.
    Over,
}

/// What came of an action.
pub enum RunEvent {
    CgroupMade(Result<(), SetupFailure>),
    TerminalOpened(Result<(), i32>),
    Ids { uid: u32, gid: u32 },
    /// When the fork server was asked, and what came back.
    Spawned { requested_at: TimeSpan, spawned: Result<SpawnResponse, SandboxError> },
    /// What `read` returned for the error pipe, the bytes, and the time by then.
    ErrorPipe { n: i64, record: [u8; 5], now: TimeSpan },
    /// The collection is over, at this time.
    Output { collector: Collector, now: TimeSpan },
    /// The handle of the program has become readable: it is gone.
    Exited { at: TimeSpan },
    /// The program has been waited for as long as it was to be.
    TimeUp,
    /// It is not possible to wait for the program.
    WaitFailed(i32),
    Killed(Result<(), IoFailure>),
    /// The handle of the killed program has become readable: it is gone.
    Gone { at: TimeSpan },
    /// The exit status and why the program has stopped.
    Status(Result<(i32, TerminationReason), SandboxError>),
    /// The texts of the two files, if they can be read.
    Figures { memory_peak: Option<String>, cpu_stat: Option<String> },
    CgroupRemoved,
}

/// What a run does next.
pub enum RunAction {
    /// Make the cgroup.
    MakeCgroup(CgroupSetup),
    /// Open a terminal.
    OpenTerminal,
    /// Find out the user and the group of this process.
    ReadIds,
    /// Ask the fork server for the child.
    Spawn(SpawnRequest),
    /// Close the child's end of the terminal, and read the error pipe.
    ReadErrorPipe { fd: i32 },
    /// Read both streams until they end or the time is up.
    CollectOutput { stderr_fd: i32, ttl: TimeSpan },
    /// Wait until the program is gone, but no longer than for the rest of its time.
    AwaitExit { pidfd: i32, rest: TimeSpan },
    /// Kill every process of the cgroup.
    KillCgroup(FileWrite<Vec<u8>>),
    /// Wait until the program is gone.
    AwaitGone { pidfd: i32 },
    /// Collect the exit status of the program.
    Reap { child_pid: i32, memory_events: Vec<u8> },
    /// Read the two files.
    ReadFigures { memory_peak: Vec<u8>, cpu_stat: Vec<u8> },
    /// Remove the cgroup.
    RemoveCgroup { path: Vec<u8> },
    /// The end of the run.
    Finish(Result<ExecutionReport, SandboxError>),
}

/// The event is what came of the action that led to the state.
pub open spec fn fits(state: RunState, event: RunEvent) -> bool {
    match (state, event) {
        (RunState::Cgroup { .. }, RunEvent::CgroupMade(_)) => true,
        (RunState::Terminal { .. }, RunEvent::TerminalOpened(_)) => true,
        (RunState::Ids { .. }, RunEvent::Ids { .. }) => true,
        (RunState::Spawn { .. }, RunEvent::Spawned { .. }) => true,
        (RunState::ErrorPipe { .. }, RunEvent::ErrorPipe { .. }) => true,
        (RunState::Output { ttl, .. }, RunEvent::Output { collector, now }) => ttl.wf() && now.wf()
            && collector.over is Some,
        (RunState::Exit { .. }, RunEvent::Exited { at }) => at.wf(),
        (RunState::Exit { .. }, RunEvent::TimeUp) => true,
        (RunState::Exit { .. }, RunEvent::WaitFailed(_)) => true,
        (RunState::Kill { .. }, RunEvent::Killed(_)) => true,
        (RunState::Gone { .. }, RunEvent::Gone { at }) => at.wf(),
        (RunState::Status { .. }, RunEvent::Status(_)) => true,
        (RunState::Figures { .. }, RunEvent::Figures { .. }) => true,
        (RunState::Removal { .. }, RunEvent::CgroupRemoved) => true,
        _ => false,
    }
}

/// Whether the event is what came of the action that led to the state.
pub fn accepts(state: &RunState, event: &RunEvent) -> (yes: bool)
    ensures
        yes == fits(*state, *event),
{
    match (state, event) {
        (RunState::Cgroup { .. }, RunEvent::CgroupMade(_)) => true,
        (RunState::Terminal { .. }, RunEvent::TerminalOpened(_)) => true,
        (RunState::Ids { .. }, RunEvent::Ids { .. }) => true,
        (RunState::Spawn { .. }, RunEvent::Spawned { .. }) => true,
        (RunState::ErrorPipe { .. }, RunEvent::ErrorPipe { .. }) => true,
        (RunState::Output { ttl, .. }, RunEvent::Output { collector, now }) => ttl.is_wf()
            && now.is_wf() && collector.over.is_some(),
        (RunState::Exit { .. }, RunEvent::Exited { at }) => at.is_wf(),
        (RunState::Exit { .. }, RunEvent::TimeUp) => true,
        (RunState::Exit { .. }, RunEvent::WaitFailed(_)) => true,
        (RunState::Kill { .. }, RunEvent::Killed(_)) => true,
        (RunState::Gone { .. }, RunEvent::Gone { at }) => at.is_wf(),
        (RunState::Status { .. }, RunEvent::Status(_)) => true,
        (RunState::Figures { .. }, RunEvent::Figures { .. }) => true,
        (RunState::Removal { .. }, RunEvent::CgroupRemoved) => true,
        _ => false,
    }
}

/// The time between two readings of the clock.
pub open spec fn is_between(span: TimeSpan, from: TimeSpan, to: TimeSpan) -> bool {
    &&& span.wf()
    &&& span.as_nanos() == if to.as_nanos() >= from.as_nanos() {
        (to.as_nanos() - from.as_nanos()) as nat
    } else {
        0
    }
}

/// What is left of a time that began to run at `from`, when it is `now`.
pub open spec fn is_rest(rest: TimeSpan, ttl: TimeSpan, from: TimeSpan, now: TimeSpan) -> bool {
    let gone = if now.as_nanos() >= from.as_nanos() {
        now.as_nanos() - from.as_nanos()
    } else {
        0
    };
    &&& rest.wf()
    &&& rest.as_nanos() == if ttl.as_nanos() >= gone {
        (ttl.as_nanos() - gone) as nat
    } else {
        0
    }
}

/// The run is to end with a result, for which its cgroup has to be removed first.
pub open spec fn ends(
    state: RunState,
    action: RunAction,
    cgroup_path: Seq<u8>,
    result: Result<ExecutionReport, SandboxError>,
) -> bool {
    &&& state == RunState::Removal { result }
    &&& action matches RunAction::RemoveCgroup { path }
    &&& path@ == cgroup_path
}

/// The run is to end with an error, for which its cgroup has to be removed first.
pub open spec fn fails(
    state: RunState,
    action: RunAction,
    cgroup_path: Seq<u8>,
    error: SandboxError,
) -> bool {
    ends(state, action, cgroup_path, Err(error))
}

/// The time of the program is up: its cgroup is killed.
pub open spec fn kills(
    state: RunState,
    action: RunAction,
    running: Running,
    stdout: Vec<u8>,
    stderr: Vec<u8>,
) -> bool {
    &&& state == RunState::Kill { running, streams: Streams { stdout, stderr } }
    &&& action matches RunAction::KillCgroup(write)
    &&& write@ == cgroup::kill_write(running.cgroup_path@)
}

/// The run has a result, and goes on to its figures.
pub open spec fn measures(
    state: RunState,
    action: RunAction,
    cgroup_path: Vec<u8>,
    wall_time: TimeSpan,
    outcome: (i32, TerminationReason),
    streams: Streams,
) -> bool {
    &&& state == RunState::Figures {
        cgroup_path,
        wall_time,
        exit_status: outcome.0,
        reason: outcome.1,
        streams,
    }
    &&& action matches RunAction::ReadFigures { memory_peak, cpu_stat }
    &&& memory_peak@ == CgroupFile::MemoryPeak.spec_path(cgroup_path@)
    &&& cpu_stat@ == CgroupFile::CpuStat.spec_path(cgroup_path@)
}

/// The text of a file; a file that cannot be read counts as empty.
pub open spec fn text_of(content: Option<String>) -> Seq<char> {
    match content {
        Some(s) => s@,
        None => Seq::empty(),
    }
}

/// The system call that a reason speaks of.
pub open spec fn violation_in(reason: TerminationReason) -> Option<u32> {
    match reason {
        TerminationReason::SeccompViolation(n) => Some(n),
        _ => None,
    }
}

/// From the state `s` the event `e` leads to the state `t` and the action `a`.
pub open spec fn leads_to(s: RunState, e: RunEvent, t: RunState, a: RunAction) -> bool {
    match (s, e) {
        (RunState::Cgroup { config, cgroup_path }, RunEvent::CgroupMade(made)) => match made {
            Err(failure) => if failure.directory_left {
                fails(t, a, cgroup_path@, failure.error)
            } else {
                t is Over && a == RunAction::Finish(Err(failure.error))
            },
            Ok(_) => t == (RunState::Terminal { config, cgroup_path }) && a is OpenTerminal,
        },
        (
            RunState::Terminal { config, cgroup_path },
            RunEvent::TerminalOpened(opened),
        ) => match opened {
            Err(errno) => fails(t, a, cgroup_path@, SandboxError::PtyOpenFailed(errno)),
            Ok(_) => t == (RunState::Ids { config, cgroup_path }) && a is ReadIds,
        },
        (RunState::Ids { config, cgroup_path }, RunEvent::Ids { uid, gid }) => {
            if !request::all_c_strings(request::argv_bytes(config.argv@)) {
                fails(
                    t,
                    a,
                    cgroup_path@,
                    SandboxError::ConfigInvalid("argv contains null byte"),
                )
            } else if !request::all_c_strings(request::env_bytes(config.env@)) {
                fails(
                    t,
                    a,
                    cgroup_path@,
                    SandboxError::ConfigInvalid("env key or value contains null byte"),
                )
            } else {
                &&& t == RunState::Spawn { ttl: config.ttl, cgroup_path }
                &&& a matches RunAction::Spawn(req)
                &&& req@ == request::request_of(config, cgroup_path@, uid, gid)
            }
        },
        (
            RunState::Spawn { ttl, cgroup_path },
            RunEvent::Spawned { requested_at, spawned },
        ) => match spawned {
            Err(error) => fails(t, a, cgroup_path@, error),
            Ok(child) => t == (RunState::ErrorPipe {
                ttl,
                running: Running { cgroup_path, child, requested_at },
            }) && a == (RunAction::ReadErrorPipe { fd: child.err_pipe_rd }),
        },
        (
            RunState::ErrorPipe { ttl, running },
            RunEvent::ErrorPipe { n, record, now },
        ) => match namespace::failure_in(n as int, record@) {
            Some(failure) => fails(
                t,
                a,
                running.cgroup_path@,
                SandboxError::ChildSetupFailed { stage: failure.0, errno: failure.1 },
            ),
            None => t == (RunState::Output { ttl, started_at: now, running }) && a == (
            RunAction::CollectOutput { stderr_fd: running.child.stderr_pipe_rd, ttl }),
        },
        (
            RunState::Output { ttl, started_at, running },
            RunEvent::Output { collector, now },
        ) => match collector.over {
            Some(Ending::Failed(failure)) => fails(
                t,
                a,
                running.cgroup_path@,
                SandboxError::IpcError(failure),
            ),
            Some(Ending::TimeUp) => kills(t, a, running, collector.stdout, collector.stderr),
            Some(Ending::Complete) => {
                &&& t == RunState::Exit {
                    running,
                    streams: Streams { stdout: collector.stdout, stderr: collector.stderr },
                }
                &&& a matches RunAction::AwaitExit { pidfd, rest }
                &&& pidfd == running.child.pidfd
                &&& is_rest(rest, ttl, started_at, now)
            },
            None => false,
        },
        (RunState::Exit { running, streams }, RunEvent::TimeUp) => kills(
            t,
            a,
            running,
            streams.stdout,
            streams.stderr,
        ),
        (RunState::Exit { running, streams }, RunEvent::WaitFailed(errno)) => fails(
            t,
            a,
            running.cgroup_path@,
            SandboxError::WaitFailed(errno),
        ),
        (RunState::Exit { running, streams }, RunEvent::Exited { at }) => {
            &&& t matches RunState::Status { cgroup_path, wall_time, streams: kept }
            &&& cgroup_path == running.cgroup_path
            &&& is_between(wall_time, running.requested_at, at)
            &&& kept == streams
            &&& a matches RunAction::Reap { child_pid, memory_events }
            &&& child_pid == running.child.child_pid
            &&& memory_events@ == CgroupFile::MemoryEvents.spec_path(running.cgroup_path@)
        },
        (RunState::Kill { running, streams }, RunEvent::Killed(killed)) => match killed {
            Err(failure) => fails(
                t,
                a,
                running.cgroup_path@,
                SandboxError::CgroupWriteFailed {
                    path: CgroupFile::Kill.spec_name(),
                    source: failure,
                },
            ),
            Ok(_) => t == (RunState::Gone { running, streams }) && a == (RunAction::AwaitGone {
                pidfd: running.child.pidfd,
            }),
        },
        (RunState::Gone { running, streams }, RunEvent::Gone { at }) => {
            &&& t matches RunState::Figures { wall_time, .. }
            &&& is_between(wall_time, running.requested_at, at)
            &&& measures(
                t,
                a,
                running.cgroup_path,
                wall_time,
                (-1i32, TerminationReason::TimedOut),
                streams,
            )
        },
        (
            RunState::Status { cgroup_path, wall_time, streams },
            RunEvent::Status(status),
        ) => match status {
            Err(error) => fails(t, a, cgroup_path@, error),
            Ok(outcome) => measures(t, a, cgroup_path, wall_time, outcome, streams),
        },
        (
            RunState::Figures { cgroup_path, wall_time, exit_status, reason, streams },
            RunEvent::Figures { memory_peak, cpu_stat },
        ) => {
            &&& t matches RunState::Removal { result: Ok(report) }
            &&& ends(t, a, cgroup_path@, Ok(report))
            &&& report.exit_status == exit_status
            &&& report.termination_reason == reason
            &&& report.stdout_bytes == streams.stdout
            &&& report.stderr_bytes == streams.stderr
            &&& report.wall_time == wall_time
            &&& report.peak_memory_bytes == text::number_or_zero(text_of(memory_peak))
            &&& report.cpu_time_us == text::named_value(text_of(cpu_stat), "usage_usec"@)
            &&& report.seccomp_violation == violation_in(reason)
        },
        (RunState::Removal { result }, RunEvent::CgroupRemoved) => t is Over && a
            == RunAction::Finish(result),
        _ => false,
    }
}

/// How a run begins.
pub open spec fn begins(
    config: SandboxConfig,
    cgroup_id: u64,
    state: RunState,
    action: RunAction,
) -> bool {
    match config.fault() {
        Some(fault) => {
            &&& state is Over
            &&& action matches RunAction::Finish(Err(SandboxError::ConfigInvalid(m)))
            &&& m@ == fault
        },
        None => {
            &&& state matches RunState::Cgroup { config: kept, cgroup_path }
            &&& kept == config
            &&& cgroup_path@ == cgroup::run_directory(config.cgroup_parent@, cgroup_id)
            &&& action matches RunAction::MakeCgroup(setup)
            &&& setup.path@ == cgroup_path@
            &&& cgroup::ops_view(setup.ops@) == cgroup::create_ops(config, cgroup_id)
            &&& setup.next == 0
        },
    }
}

/// Begins a run, whose cgroup has the given number, with the configuration
/// checked.
pub fn start_run(config: SandboxConfig, cgroup_id: u64) -> (start: (RunState, RunAction))
    requires
        config.ttl.wf(),
    ensures
        begins(config, cgroup_id, start.0, start.1),
{
    match config.validate() {
        Err(error) => (RunState::Over, RunAction::Finish(Err(error))),
        Ok(_) => {
            let setup = CgroupSetup::create(&config, cgroup_id);
            let cgroup_path = copy(&setup.path);
            (RunState::Cgroup { config, cgroup_path }, RunAction::MakeCgroup(setup))
        },
    }
}

fn fail(cgroup_path: Vec<u8>, error: SandboxError) -> (next: (RunState, RunAction))
    ensures
        fails(next.0, next.1, cgroup_path@, error),
{
    (RunState::Removal { result: Err(error) }, RunAction::RemoveCgroup { path: cgroup_path })
}

fn kill(running: Running, stdout: Vec<u8>, stderr: Vec<u8>) -> (next: (RunState, RunAction))
    ensures
        kills(next.0, next.1, running, stdout, stderr),
{
    let write = kill_all(&running.cgroup_path);
    (
        RunState::Kill { running, streams: Streams { stdout, stderr } },
        RunAction::KillCgroup(write),
    )
}

fn measure(
    cgroup_path: Vec<u8>,
    wall_time: TimeSpan,
    outcome: (i32, TerminationReason),
    streams: Streams,
) -> (next: (RunState, RunAction))
    ensures
        measures(next.0, next.1, cgroup_path, wall_time, outcome, streams),
{
    let memory_peak = CgroupFile::MemoryPeak.path_in(&cgroup_path);
    let cpu_stat = CgroupFile::CpuStat.path_in(&cgroup_path);
    (
        RunState::Figures {
            cgroup_path,
            wall_time,
            exit_status: outcome.0,
            reason: outcome.1,
            streams,
        },
        RunAction::ReadFigures { memory_peak, cpu_stat },
    )
}

fn as_text(content: &Option<String>) -> (s: Option<&str>)
    ensures
        cgroup::text_of(s) == text_of(*content),
{
    match content {
        Some(s) => Some(s.as_str()),
        None => None,
    }
}

fn on_output(
    ttl: TimeSpan,
    started_at: TimeSpan,
    running: Running,
    collector: Collector,
    now: TimeSpan,
) -> (next: (RunState, RunAction))
    requires
        ttl.wf(),
        now.wf(),
        collector.over is Some,
    ensures
        leads_to(
            RunState::Output { ttl, started_at, running },
            RunEvent::Output { collector, now },
            next.0,
            next.1,
        ),
{
    let Collector { stdout, stderr, stdout_done: _, stderr_done: _, over } = collector;
    match over {
        Some(Ending::Failed(failure)) => fail(running.cgroup_path, SandboxError::IpcError(failure)),
        Some(Ending::TimeUp) => kill(running, stdout, stderr),
        Some(Ending::Complete) => {
            let gone = now.minus(&started_at);
            let rest = ttl.minus(&gone);
            let pidfd: i32 = running.child.pidfd;
            (
                RunState::Exit { running, streams: Streams { stdout, stderr } },
                RunAction::AwaitExit { pidfd, rest },
            )
        },
        None => vstd::pervasive::unreached(),
    }
}

fn on_exit(running: Running, streams: Streams, at: TimeSpan) -> (next: (RunState, RunAction))
    requires
        at.wf(),
    ensures
        leads_to(
            RunState::Exit { running, streams },
            RunEvent::Exited { at },
            next.0,
            next.1,
        ),
{
    let memory_events = CgroupFile::MemoryEvents.path_in(&running.cgroup_path);
    let wall_time = at.minus(&running.requested_at);
    (
        RunState::Status { cgroup_path: running.cgroup_path, wall_time, streams },
        RunAction::Reap { child_pid: running.child.child_pid, memory_events },
    )
}

fn on_figures(
    cgroup_path: Vec<u8>,
    wall_time: TimeSpan,
    outcome: (i32, TerminationReason),
    streams: Streams,
    memory_peak: Option<String>,
    cpu_stat: Option<String>,
) -> (next: (RunState, RunAction))
    ensures
        leads_to(
            RunState::Figures {
                cgroup_path,
                wall_time,
                exit_status: outcome.0,
                reason: outcome.1,
                streams,
            },
            RunEvent::Figures { memory_peak, cpu_stat },
            next.0,
            next.1,
        ),
{
    let peak: u64 = peak_memory_bytes(as_text(&memory_peak));
    let cpu: u64 = parse_cpu_stat(as_text(&cpu_stat));
    let seccomp_violation = match outcome.1 {
        TerminationReason::SeccompViolation(n) => Some(n),
        _ => None,
    };
    let report = ExecutionReport {
        exit_status: outcome.0,
        termination_reason: outcome.1,
        stdout_bytes: streams.stdout,
        stderr_bytes: streams.stderr,
        wall_time,
        peak_memory_bytes: peak,
        cpu_time_us: cpu,
        seccomp_violation,
    };
    (RunState::Removal { result: Ok(report) }, RunAction::RemoveCgroup { path: cgroup_path })
}

/// One step of a run.
pub fn run(state: RunState, event: RunEvent) -> (next: (RunState, RunAction))
    requires
        fits(state, event),
    ensures
        leads_to(state, event, next.0, next.1),
{
    match (state, event) {
        (RunState::Cgroup { config, cgroup_path }, RunEvent::CgroupMade(made)) => match made {
            Err(failure) => if failure.directory_left {
                fail(cgroup_path, failure.error)
            } else {
                (RunState::Over, RunAction::Finish(Err(failure.error)))
            },
            Ok(_) => (RunState::Terminal { config, cgroup_path }, RunAction::OpenTerminal),
        },
        (
            RunState::Terminal { config, cgroup_path },
            RunEvent::TerminalOpened(opened),
        ) => match opened {
            Err(errno) => fail(cgroup_path, SandboxError::PtyOpenFailed(errno)),
            Ok(_) => (RunState::Ids { config, cgroup_path }, RunAction::ReadIds),
        },
        (RunState::Ids { config, cgroup_path }, RunEvent::Ids { uid, gid }) => {
            match build_request(&config, &cgroup_path, uid, gid) {
                Err(error) => fail(cgroup_path, error),
                Ok(req) => (
                    RunState::Spawn { ttl: config.ttl, cgroup_path },
                    RunAction::Spawn(req),
                ),
            }
        },
        (
            RunState::Spawn { ttl, cgroup_path },
            RunEvent::Spawned { requested_at, spawned },
        ) => match spawned {
            Err(error) => fail(cgroup_path, error),
            Ok(child) => (
                RunState::ErrorPipe { ttl, running: Running { cgroup_path, child, requested_at } },
                RunAction::ReadErrorPipe { fd: child.err_pipe_rd },
            ),
        },
        (
            RunState::ErrorPipe { ttl, running },
            RunEvent::ErrorPipe { n, record, now },
        ) => match child_failure(n, &record) {
            Some((stage, errno)) => fail(
                running.cgroup_path,
                SandboxError::ChildSetupFailed { stage, errno },
            ),
            None => {
                let stderr_fd: i32 = running.child.stderr_pipe_rd;
                (
                    RunState::Output { ttl, started_at: now, running },
                    RunAction::CollectOutput { stderr_fd, ttl },
                )
            },
        },
        (
            RunState::Output { ttl, started_at, running },
            RunEvent::Output { collector, now },
        ) => on_output(ttl, started_at, running, collector, now),
        (RunState::Exit { running, streams }, RunEvent::TimeUp) => kill(
            running,
            streams.stdout,
            streams.stderr,
        ),
        (RunState::Exit { running, streams: _ }, RunEvent::WaitFailed(errno)) => fail(
            running.cgroup_path,
            SandboxError::WaitFailed(errno),
        ),
        (RunState::Exit { running, streams }, RunEvent::Exited { at }) => on_exit(
            running,
            streams,
            at,
        ),
        (RunState::Kill { running, streams }, RunEvent::Killed(killed)) => match killed {
            Err(failure) => fail(running.cgroup_path, kill_failed(failure)),
            Ok(_) => {
                let pidfd: i32 = running.child.pidfd;
                (RunState::Gone { running, streams }, RunAction::AwaitGone { pidfd })
            },
        },
        (RunState::Gone { running, streams }, RunEvent::Gone { at }) => {
            let wall_time = at.minus(&running.requested_at);
            measure(running.cgroup_path, wall_time, (-1, TerminationReason::TimedOut), streams)
        },
        (
            RunState::Status { cgroup_path, wall_time, streams },
            RunEvent::Status(status),
        ) => match status {
            Err(error) => fail(cgroup_path, error),
            Ok(outcome) => measure(cgroup_path, wall_time, outcome, streams),
        },
        (
            RunState::Figures { cgroup_path, wall_time, exit_status, reason, streams },
            RunEvent::Figures { memory_peak, cpu_stat },
        ) => on_figures(
            cgroup_path,
            wall_time,
            (exit_status, reason),
            streams,
            memory_peak,
            cpu_stat,
        ),
        (RunState::Removal { result }, RunEvent::CgroupRemoved) => (
            RunState::Over,
            RunAction::Finish(result),
        ),
        _ => vstd::pervasive::unreached(),
    }
}

// ---- Laws ----

/// A run up to some point: each event leads from one state to the next, and to the
/// next action.
pub struct Course {
    pub config: SandboxConfig,
    pub cgroup_id: u64,
    pub states: Seq<RunState>,
    pub events: Seq<RunEvent>,
    pub actions: Seq<RunAction>,
}

impl Course {
    pub open spec fn wf(self) -> bool {
        &&& self.states.len() == self.events.len() + 1
        &&& self.actions.len() == self.events.len() + 1
        &&& begins(self.config, self.cgroup_id, self.states[0], self.actions[0])
        &&& forall|i: int| 0 <= i < self.events.len() ==> #[trigger] self.goes_on(i)
    }

    /// The `i`-th event leads to the next state and the next action.
    pub open spec fn goes_on(self, i: int) -> bool {
        leads_to(self.states[i], self.events[i], self.states[i + 1], self.actions[i + 1])
    }

    /// The directory of the cgroup.
    pub open spec fn directory(self) -> Seq<u8> {
        cgroup::run_directory(self.config.cgroup_parent@, self.cgroup_id)
    }

    /// The directory of the cgroup has been made.
    pub open spec fn directory_made(self) -> bool {
        self.events.len() > 0 && match self.events[0] {
            RunEvent::CgroupMade(Ok(_)) => true,
            RunEvent::CgroupMade(Err(failure)) => failure.directory_left,
            _ => false,
        }
    }

    /// The clock when the fork server was asked.
    pub open spec fn requested_at(self) -> TimeSpan {
        self.events[3]->requested_at
    }

    /// The output has been collected up to the end of both streams or of the time.
    pub open spec fn collected(self, streams: Streams, ending: Ending) -> bool {
        &&& self.events[5] matches RunEvent::Output { collector, now }
        &&& collector.stdout == streams.stdout
        &&& collector.stderr == streams.stderr
        &&& collector.over == Some(ending)
    }

    /// After the output had been collected, the time was up: either that ended the
    /// collection, or the wait for the exit after it. The kill would be the event
    /// with this number.
    pub open spec fn out_of_time(self, streams: Streams, kill: int) -> bool {
        ||| kill == 6 && self.collected(streams, Ending::TimeUp)
        ||| kill == 7 && self.collected(streams, Ending::Complete) && self.events[6] is TimeUp
    }

    /// The program was killed when its time was up, was gone by a time, and that is
    /// what the run says of it.
    pub open spec fn was_killed(
        self,
        kill: int,
        wall_time: TimeSpan,
        exit_status: i32,
        reason: TerminationReason,
        streams: Streams,
    ) -> bool {
        &&& self.out_of_time(streams, kill)
        &&& self.events[kill] matches RunEvent::Killed(Ok(_))
        &&& self.events[kill + 1] matches RunEvent::Gone { at }
        &&& is_between(wall_time, self.requested_at(), at)
        &&& exit_status == -1
        &&& reason == TerminationReason::TimedOut
    }

    /// The program had ended its output and was gone in time, and the run says of it
    /// what its exit status says.
    pub open spec fn was_reaped(
        self,
        wall_time: TimeSpan,
        exit_status: i32,
        reason: TerminationReason,
        streams: Streams,
    ) -> bool {
        &&& self.collected(streams, Ending::Complete)
        &&& self.events[6] matches RunEvent::Exited { at }
        &&& is_between(wall_time, self.requested_at(), at)
        &&& self.events[7] == RunEvent::Status(Ok((exit_status, reason)))
    }

    /// The two figures are what the texts of the event with this number tell: the
    /// number that `memory.peak` holds, and the one that `cpu.stat` gives to its
    /// `usage_usec`.
    pub open spec fn measured(self, at: int, peak_memory_bytes: u64, cpu_time_us: u64) -> bool {
        &&& self.events[at] matches RunEvent::Figures { memory_peak, cpu_stat }
        &&& peak_memory_bytes == text::number_or_zero(text_of(memory_peak))
        &&& cpu_time_us == text::named_value(text_of(cpu_stat), "usage_usec"@)
    }

    /// The report tells what has happened.
    pub open spec fn tells_the_truth(self, report: ExecutionReport) -> bool {
        let streams = Streams { stdout: report.stdout_bytes, stderr: report.stderr_bytes };
        let peak = report.peak_memory_bytes;
        let cpu = report.cpu_time_us;
        &&& {
            ||| self.was_killed(
                6,
                report.wall_time,
                report.exit_status,
                report.termination_reason,
                streams,
            ) && self.measured(8, peak, cpu)
            ||| self.was_killed(
                7,
                report.wall_time,
                report.exit_status,
                report.termination_reason,
                streams,
            ) && self.measured(9, peak, cpu)
            ||| self.was_reaped(
                report.wall_time,
                report.exit_status,
                report.termination_reason,
                streams,
            ) && self.measured(8, peak, cpu)
        }
        &&& report.termination_reason matches TerminationReason::SeccompViolation(nr)
            ==> report.seccomp_violation == Some(nr)
        &&& !(report.termination_reason is SeccompViolation) ==> report.seccomp_violation is None
    }
}

/// What is known of a child that has been started.
spec fn running_is_known(c: Course, running: Running) -> bool {
    &&& running.cgroup_path@ == c.directory()
    &&& c.events[3] matches RunEvent::Spawned { requested_at, spawned }
    &&& requested_at == running.requested_at
    &&& spawned == Ok::<SpawnResponse, SandboxError>(running.child)
}

/// What is known of the past of a run in its `i`-th state.
spec fn past_is_known(c: Course, i: int) -> bool {
    let made = c.events.len() > 0 && c.events[0] matches RunEvent::CgroupMade(Ok(_));
    match c.states[i] {
        RunState::Cgroup { config, cgroup_path } => i == 0 && config == c.config && cgroup_path@
            == c.directory(),
        RunState::Terminal { config, cgroup_path } => i == 1 && made && config == c.config
            && cgroup_path@ == c.directory(),
        RunState::Ids { config, cgroup_path } => i == 2 && made && config == c.config
            && cgroup_path@ == c.directory(),
        RunState::Spawn { ttl, cgroup_path } => i == 3 && made && ttl == c.config.ttl
            && cgroup_path@ == c.directory(),
        RunState::ErrorPipe { ttl, running } => i == 4 && made && ttl == c.config.ttl
            && running_is_known(c, running),
        RunState::Output { ttl, started_at, running } => i == 5 && made && ttl == c.config.ttl
            && running_is_known(c, running),
        RunState::Exit { running, streams } => i == 6 && made && running_is_known(c, running)
            && c.collected(streams, Ending::Complete),
        RunState::Kill { running, streams } => made && running_is_known(c, running)
            && c.out_of_time(streams, i),
        RunState::Gone { running, streams } => made && running_is_known(c, running)
            && c.out_of_time(streams, i - 1) && c.events[i - 1] matches RunEvent::Killed(Ok(_)),
        RunState::Status { cgroup_path, wall_time, streams } => {
            &&& i == 7 && made
            &&& cgroup_path@ == c.directory()
            &&& c.collected(streams, Ending::Complete)
            &&& c.events[6] matches RunEvent::Exited { at }
            &&& is_between(wall_time, c.requested_at(), at)
        },
        RunState::Figures { cgroup_path, wall_time, exit_status, reason, streams } => {
            &&& made
            &&& cgroup_path@ == c.directory()
            &&& {
                ||| i == 8 && c.was_killed(6, wall_time, exit_status, reason, streams)
                ||| i == 9 && c.was_killed(7, wall_time, exit_status, reason, streams)
                ||| i == 8 && c.was_reaped(wall_time, exit_status, reason, streams)
            }
        },
        RunState::Removal { result } => {
            &&& 0 < i <= 10
            &&& c.directory_made()
            &&& c.actions[i] matches RunAction::RemoveCgroup { path }
            &&& path@ == c.directory()
            &&& result matches Ok(report) ==> i >= 9 && c.tells_the_truth(report)
        },
        RunState::Over => {
            &&& i <= 11
            &&& c.actions[i] is Finish
            &&& c.directory_made() ==> {
                &&& i > 0
                &&& c.events[i - 1] is CgroupRemoved
                &&& c.actions[i - 1] matches RunAction::RemoveCgroup { path }
                &&& path@ == c.directory()
            }
            &&& c.actions[i] matches RunAction::Finish(Ok(report)) ==> c.tells_the_truth(report)
        },
    }
}

#[verifier::spinoff_prover]
#[verifier::rlimit(50)]
proof fn lemma_past_is_known(c: Course, i: int)
    requires
        c.wf(),
        0 <= i <= c.events.len(),
    ensures
        past_is_known(c, i),
    decreases i,
{
    if i > 0 {
        lemma_past_is_known(c, i - 1);
        assert(c.goes_on(i - 1));
    } else if c.events.len() > 0 {
        assert(c.goes_on(0));
    }
}

/// A run comes to its end after eleven events at the latest.
pub proof fn runs_come_to_an_end(c: Course)
    requires
        c.wf(),
    ensures
        c.events.len() <= 11,
{
    lemma_past_is_known(c, c.events.len() as int);
}

/// The fork server is asked for a child only if the configuration is valid and the
/// cgroup with its limits has been made, and what it is asked for is exactly what
/// the configuration says.
pub proof fn nothing_starts_without_its_limits(c: Course, n: int)
    requires
        c.wf(),
        0 <= n <= c.events.len(),
    ensures
        c.actions[n] matches RunAction::Spawn(req) ==> {
            &&& n == 3
            &&& c.config.valid()
            &&& c.actions[0] matches RunAction::MakeCgroup(setup)
            &&& cgroup::ops_view(setup.ops@) == cgroup::create_ops(c.config, c.cgroup_id)
            &&& c.events[0] matches RunEvent::CgroupMade(Ok(_))
            &&& c.events[2] matches RunEvent::Ids { uid, gid }
            &&& req@ == request::request_of(c.config, c.directory(), uid, gid)
        },
{
    if n > 0 {
        lemma_past_is_known(c, n - 1);
        assert(c.goes_on(n - 1));
        assert(c.goes_on(0));
        crate::config::mount_fault_iff(crate::wire::pair_views(c.config.extra_ro_mounts@));
    }
}

/// An event that says that the time of the program is up.
pub open spec fn is_time_up(event: RunEvent) -> bool {
    match event {
        RunEvent::Output { collector, now } => collector.over == Some(Ending::TimeUp),
        RunEvent::TimeUp => true,
        _ => false,
    }
}

/// The cgroup is killed if, and only if, the time of the program is up, be it while
/// its output is being collected or after its streams have ended.
pub proof fn killed_exactly_when_time_is_up(c: Course, n: int)
    requires
        c.wf(),
        0 < n <= c.events.len(),
    ensures
        c.actions[n] is KillCgroup <==> is_time_up(c.events[n - 1]),
        c.actions[n] matches RunAction::KillCgroup(write) ==> write@ == cgroup::kill_write(
            c.directory(),
        ),
{
    lemma_past_is_known(c, n - 1);
    assert(c.goes_on(n - 1));
}

/// At every point between `execve` and the exit of the program the run waits with a
/// limit, which is the whole time of the program or what is left of it, and can be
/// told that it is up.
pub proof fn every_wait_has_a_limit(c: Course, n: int)
    requires
        c.wf(),
        0 < n <= c.events.len(),
    ensures
        c.states[n] is Output <==> c.actions[n] is CollectOutput,
        c.states[n] is Exit <==> c.actions[n] is AwaitExit,
        c.actions[n] matches RunAction::CollectOutput { ttl, .. } ==> ttl == c.config.ttl,
        c.actions[n] matches RunAction::AwaitExit { rest, .. } ==> {
            &&& n == 6
            &&& c.events[4] matches RunEvent::ErrorPipe { now: started_at, .. }
            &&& c.events[5] matches RunEvent::Output { now, .. }
            &&& is_rest(rest, c.config.ttl, started_at, now)
        },
{
    lemma_past_is_known(c, n - 1);
    assert(c.goes_on(n - 1));
    if c.actions[n] is AwaitExit {
        assert(c.goes_on(4));
    }
}

/// A report tells what happened: the output is what was collected, in full unless
/// the time was up; if the time was up, that is the reason, and the cgroup was
/// killed; if not, exit status and reason are those of the program; the time is that
/// from the request until the program was gone; a system call is named exactly if the
/// filter has killed for it; and, whatever the reason, the figures are those that the
/// files of the cgroup told.
pub proof fn reports_tell_what_happened(c: Course, n: int)
    requires
        c.wf(),
        0 <= n <= c.events.len(),
    ensures
        c.actions[n] matches RunAction::Finish(Ok(report)) ==> c.tells_the_truth(report),
{
    lemma_past_is_known(c, n);
    if n > 0 {
        assert(c.goes_on(n - 1));
    }
}

/// Exit status and reason of a report say the same, provided that those of the
/// program do.
pub proof fn reports_agree_with_themselves(c: Course, n: int)
    requires
        c.wf(),
        0 <= n <= c.events.len(),
        forall|i: int|
            0 <= i < c.events.len() ==> (#[trigger] c.events[i] matches RunEvent::Status(Ok(o))
                ==> report::agree(o.0, o.1)),
    ensures
        c.actions[n] matches RunAction::Finish(Ok(report)) ==> report::agree(
            report.exit_status,
            report.termination_reason,
        ),
{
    reports_tell_what_happened(c, n);
    lemma_past_is_known(c, n);
    if c.actions[n] is Finish && n > 0 {
        assert(c.goes_on(n - 1));
        lemma_past_is_known(c, n - 1);
    }
}

/// A cgroup whose directory was made is removed before the run ends, whichever way
/// it ends.
pub proof fn cgroups_are_removed_in_the_end(c: Course, n: int)
    requires
        c.wf(),
        0 <= n <= c.events.len(),
        c.actions[n] is Finish,
    ensures
        c.directory_made() ==> {
            &&& n > 0
            &&& c.actions[n - 1] matches RunAction::RemoveCgroup { path }
            &&& path@ == c.directory()
            &&& c.events[n - 1] is CgroupRemoved
        },
{
    lemma_past_is_known(c, n);
    if n > 0 {
        assert(c.goes_on(n - 1));
    }
}

/// A child that cannot set itself up makes the run fail with the stage and the
/// error number that it has met.
pub proof fn setup_failures_are_reported(
    s: RunState,
    record: [u8; 5],
    now: TimeSpan,
    stage: ChildStage,
    errno: i32,
    t: RunState,
    a: RunAction,
)
    requires
        s is ErrorPipe,
        record@ == namespace::failure_record(stage, errno),
        leads_to(s, RunEvent::ErrorPipe { n: 5, record, now }, t, a),
    ensures
        fails(
            t,
            a,
            s->ErrorPipe_running.cgroup_path@,
            SandboxError::ChildSetupFailed { stage, errno },
        ),
{
    namespace::failure_reads_back(stage, errno);
}

/// The number that `memory.peak` held, and the one that `cpu.stat` gave to
/// `usage_usec`, are those of the report, for whatever reason the program has stopped.
pub proof fn figures_reach_the_report(
    c: Course,
    k: int,
    n: int,
    memory: nat,
    cpu: nat,
    rest: Seq<char>,
)
    requires
        c.wf(),
        0 <= k < c.events.len(),
        0 <= n <= c.events.len(),
        memory <= u64::MAX,
        cpu <= u64::MAX,
        c.events[k] matches RunEvent::Figures { memory_peak, cpu_stat } && {
            &&& memory_peak is Some
            &&& memory_peak->0@ == text::decimal(memory) + seq!['\n']
            &&& cpu_stat is Some
            &&& cpu_stat->0@ == "usage_usec"@ + seq![' '] + text::decimal(cpu) + (seq!['\n'] + rest)
        },
    ensures
        c.actions[n] matches RunAction::Finish(result) ==> {
            &&& n == k + 2
            &&& result matches Ok(report)
            &&& report.peak_memory_bytes == memory
            &&& report.cpu_time_us == cpu
        },
{
    assert(c.goes_on(k));
    let none = Seq::<char>::empty();
    assert(text::decimal(memory) + seq!['\n'] =~= none + text::decimal(memory) + seq!['\n']);
    text::numbers_are_read_back(none, memory, seq!['\n']);
    reveal_strlit("usage_usec");
    let key = "usage_usec"@;
    let digits = text::decimal(cpu);
    let end = seq!['\n'] + rest;
    assert(none + key + seq![' '] + digits + none + end =~= key + seq![' '] + digits + end);
    text::a_line_gives_its_key_a_number(none, key, seq![' '], cpu, none, end);
    if c.actions[n] is Finish {
        lemma_past_is_known(c, k);
        lemma_past_is_known(c, n);
        nothing_comes_after_the_end(c, n);
        assert(n > k);
        if n > k + 1 {
            assert(c.goes_on(k + 1));
            nothing_comes_after_the_end(c, k + 2);
        }
    }
}

/// Nothing comes after the end of a run.
pub proof fn nothing_comes_after_the_end(c: Course, n: int)
    requires
        c.wf(),
        0 <= n <= c.events.len(),
        c.actions[n] is Finish,
    ensures
        n == c.events.len(),
{
    if n > 0 {
        assert(c.goes_on(n - 1));
    }
    assert(c.states[n] is Over);
    if n < c.events.len() {
        assert(c.goes_on(n));
    }
}

/// The time of a report, added to the clock at its begin, is the clock at its end.
pub proof fn wall_times_add_up(span: TimeSpan, from: TimeSpan, to: TimeSpan)
    requires
        is_between(span, from, to),
    ensures
        span.nanos < 1_000_000_000,
        to.as_nanos() >= from.as_nanos() ==> from.as_nanos() + span.as_nanos() == to.as_nanos(),
        to.as_nanos() < from.as_nanos() ==> span.as_nanos() == 0,
{
}

/// The rest of a time and what has gone of it make up the whole, until it has gone.
pub proof fn rests_add_up(rest: TimeSpan, ttl: TimeSpan, from: TimeSpan, now: TimeSpan)
    requires
        is_rest(rest, ttl, from, now),
    ensures
        rest.nanos < 1_000_000_000,
        from.as_nanos() <= now.as_nanos() <= from.as_nanos() + ttl.as_nanos() ==> rest.as_nanos()
            + now.as_nanos() == from.as_nanos() + ttl.as_nanos(),
        now.as_nanos() > from.as_nanos() + ttl.as_nanos() ==> rest.as_nanos() == 0,
        now.as_nanos() < from.as_nanos() ==> rest.as_nanos() == ttl.as_nanos(),
{
}

/// A run begins with its cgroup if, and only if, the configuration is valid, and is
/// else over at once, with the fault that was found.
pub proof fn runs_begin_with_their_cgroup(c: Course)
    requires
        c.wf(),
    ensures
        c.config.valid() <==> c.actions[0] is MakeCgroup,
        c.actions[0] matches RunAction::MakeCgroup(setup) ==> {
            &&& setup.next == 0
            &&& setup.path@ == c.directory()
            &&& cgroup::ops_view(setup.ops@) == cgroup::create_ops(c.config, c.cgroup_id)
        },
        !c.config.valid() ==> {
            &&& c.events.len() == 0
            &&& c.actions[0] matches RunAction::Finish(Err(SandboxError::ConfigInvalid(fault)))
            &&& c.config.fault() == Some(fault@)
        },
{
    crate::config::mount_fault_iff(crate::wire::pair_views(c.config.extra_ro_mounts@));
    if c.events.len() > 0 {
        assert(c.goes_on(0));
    }
}

/// Whatever a run does is done to the child that the fork server handed out and to
/// the cgroup of this run: its handle is waited for, its pipes are read, its exit
/// status is collected, and it is the files of its own cgroup that are read.
pub proof fn actions_are_for_this_child(c: Course, n: int)
    requires
        c.wf(),
        0 < n <= c.events.len(),
    ensures
        c.actions[n] matches RunAction::ReadErrorPipe { fd } ==> {
            &&& c.events[3] matches RunEvent::Spawned { spawned: Ok(child), .. }
            &&& fd == child.err_pipe_rd
        },
        c.actions[n] matches RunAction::CollectOutput { stderr_fd, .. } ==> {
            &&& c.events[3] matches RunEvent::Spawned { spawned: Ok(child), .. }
            &&& stderr_fd == child.stderr_pipe_rd
        },
        c.actions[n] matches RunAction::AwaitExit { pidfd, .. } ==> {
            &&& c.events[3] matches RunEvent::Spawned { spawned: Ok(child), .. }
            &&& pidfd == child.pidfd
        },
        c.actions[n] matches RunAction::AwaitGone { pidfd } ==> {
            &&& c.events[3] matches RunEvent::Spawned { spawned: Ok(child), .. }
            &&& pidfd == child.pidfd
        },
        c.actions[n] matches RunAction::Reap { child_pid, memory_events } ==> {
            &&& c.events[3] matches RunEvent::Spawned { spawned: Ok(child), .. }
            &&& child_pid == child.child_pid
            &&& memory_events@ == paths::below(c.directory(), "memory.events".spec_bytes())
        },
        c.actions[n] matches RunAction::ReadFigures { memory_peak, cpu_stat } ==> {
            &&& memory_peak@ == paths::below(c.directory(), "memory.peak".spec_bytes())
            &&& cpu_stat@ == paths::below(c.directory(), "cpu.stat".spec_bytes())
        },
        c.actions[n] matches RunAction::KillCgroup(write) ==> {
            &&& write.path@ == paths::below(c.directory(), "cgroup.kill".spec_bytes())
            &&& write.content@ == seq![49u8]
        },
        c.actions[n] matches RunAction::RemoveCgroup { path } ==> path@ == c.directory(),
{
    lemma_past_is_known(c, n - 1);
    lemma_past_is_known(c, n);
    assert(c.goes_on(n - 1));
    cgroup::joins_and_kills_read_back(c.directory(), 0);
    if c.actions[n] is KillCgroup {
        let write = c.actions[n]->KillCgroup_0;
        assert(write@ == cgroup::kill_write(c.directory()));
        assert(write@.path == write.path@);
        assert(write@.content == write.content@);
    }
}

/// An event that goes well leads on to the next thing to do.
pub proof fn what_goes_well_leads_on(c: Course, k: int)
    requires
        c.wf(),
        0 <= k < c.events.len(),
    ensures
        c.events[k] matches RunEvent::CgroupMade(Ok(_)) ==> c.actions[k + 1] is OpenTerminal,
        c.events[k] matches RunEvent::TerminalOpened(Ok(_)) ==> c.actions[k + 1] is ReadIds,
        c.events[k] is Ids ==> (c.actions[k + 1] is Spawn <==> request::all_c_strings(
            request::argv_bytes(c.config.argv@),
        ) && request::all_c_strings(request::env_bytes(c.config.env@))),
        c.events[k] matches RunEvent::Spawned { spawned: Ok(_), .. } ==> c.actions[k
            + 1] is ReadErrorPipe,
        c.events[k] matches RunEvent::ErrorPipe { n, record, .. } ==> (c.actions[k
            + 1] is CollectOutput <==> namespace::failure_in(n as int, record@) is None),
        c.events[k] matches RunEvent::Output { collector, .. } ==> (c.actions[k + 1] is AwaitExit
            <==> collector.over == Some(Ending::Complete)),
        c.events[k] is Exited ==> c.actions[k + 1] is Reap,
        c.events[k] matches RunEvent::Killed(Ok(_)) ==> c.actions[k + 1] is AwaitGone,
        c.events[k] is Gone ==> c.actions[k + 1] is ReadFigures,
        c.events[k] matches RunEvent::Status(Ok(_)) ==> c.actions[k + 1] is ReadFigures,
        c.events[k] is Figures ==> c.actions[k + 1] is RemoveCgroup,
        c.events[k] is CgroupRemoved ==> c.actions[k + 1] is Finish,
{
    lemma_past_is_known(c, k);
    assert(c.goes_on(k));
}

/// The error that a run ends with if an event is what it fails for.
pub open spec fn is_cause(event: RunEvent, error: SandboxError) -> bool {
    match event {
        RunEvent::CgroupMade(Err(failure)) => error == failure.error,
        RunEvent::TerminalOpened(Err(errno)) => error == SandboxError::PtyOpenFailed(errno),
        RunEvent::Ids { .. } => error is ConfigInvalid,
        RunEvent::Spawned { spawned: Err(reported), .. } => error == reported,
        RunEvent::ErrorPipe { n, record, .. } => {
            &&& namespace::failure_in(n as int, record@) matches Some(failure)
            &&& error == SandboxError::ChildSetupFailed { stage: failure.0, errno: failure.1 }
        },
        RunEvent::Output { collector, .. } => {
            &&& collector.over matches Some(Ending::Failed(failure))
            &&& error == SandboxError::IpcError(failure)
        },
        RunEvent::WaitFailed(errno) => error == SandboxError::WaitFailed(errno),
        RunEvent::Killed(Err(failure)) => {
            &&& error matches SandboxError::CgroupWriteFailed { path, source }
            &&& path == "cgroup.kill"
            &&& source == failure
        },
        RunEvent::Status(Err(reported)) => error == reported,
        _ => false,
    }
}

/// A run that fails does so for an event that went wrong, which is the last one, the
/// removal of the cgroup aside, and the error is the one that this event tells of.
/// Events go wrong in no other way: whichever does is the end.
pub proof fn failures_have_their_causes(c: Course, n: int)
    requires
        c.wf(),
        0 < n <= c.events.len(),
    ensures
        c.actions[n] matches RunAction::Finish(Err(error)) ==> {
            ||| is_cause(c.events[n - 1], error)
            ||| n > 1 && c.events[n - 1] is CgroupRemoved && is_cause(c.events[n - 2], error)
        },
        c.actions[n] matches RunAction::Finish(Ok(_)) ==> n > 1 && c.events[n - 2] is Figures,
        forall|error: SandboxError| #[trigger]
            is_cause(c.events[n - 1], error) && !(error is ConfigInvalid) ==> c.actions[n]
                is RemoveCgroup || c.actions[n] is Finish,
{
    lemma_past_is_known(c, n - 1);
    assert(c.goes_on(n - 1));
    if n > 1 {
        lemma_past_is_known(c, n - 2);
        assert(c.goes_on(n - 2));
    }
}

/// Every event that a state leads on with is taken, provided that its times are ones.
pub proof fn what_leads_on_is_accepted(s: RunState, e: RunEvent, t: RunState, a: RunAction)
    requires
        leads_to(s, e, t, a),
        s matches RunState::Output { ttl, .. } ==> ttl.wf(),
        e matches RunEvent::Output { now, .. } ==> now.wf(),
        e matches RunEvent::Exited { at } ==> at.wf(),
        e matches RunEvent::Gone { at } ==> at.wf(),
    ensures
        fits(s, e),
{
}

/// Text read from a file is that text; a file that cannot be read counts as empty.
pub proof fn texts_are_taken_as_read(content: Option<String>)
    ensures
        content is Some ==> text_of(content) == content->0@,
        content is None ==> text_of(content).len() == 0,
{
}

/// A run takes whatever can come of the action it has asked for, good or bad, and
/// nothing else: times only have to be ones, and a collection has to be over.
pub proof fn what_was_asked_for_is_accepted(s: RunState, e: RunEvent)
    ensures
        s is Cgroup ==> (fits(s, e) <==> e is CgroupMade),
        s is Terminal ==> (fits(s, e) <==> e is TerminalOpened),
        s is Ids ==> (fits(s, e) <==> e is Ids),
        s is Spawn ==> (fits(s, e) <==> e is Spawned),
        s is ErrorPipe ==> (fits(s, e) <==> e is ErrorPipe),
        s matches RunState::Output { ttl, .. } ==> (fits(s, e) <==> {
            &&& e matches RunEvent::Output { collector, now }
            &&& ttl.wf()
            &&& now.wf()
            &&& collector.over is Some
        }),
        s is Exit ==> (fits(s, e) <==> {
            ||| e is TimeUp
            ||| e is WaitFailed
            ||| e matches RunEvent::Exited { at } && at.wf()
        }),
        s is Kill ==> (fits(s, e) <==> e is Killed),
        s is Gone ==> (fits(s, e) <==> (e matches RunEvent::Gone { at } && at.wf())),
        s is Status ==> (fits(s, e) <==> e is Status),
        s is Figures ==> (fits(s, e) <==> e is Figures),
        s is Removal ==> (fits(s, e) <==> e is CgroupRemoved),
        s is Over ==> !fits(s, e),
{
}

/// A zero byte in an argument, or, if there is none, in the environment, ends the run
/// before the fork server is asked, with words that tell the two apart.
pub proof fn zero_bytes_end_the_run(c: Course, k: int)
    requires
        c.wf(),
        0 <= k < c.events.len(),
        c.events[k] is Ids,
    ensures
        ({
            let argv_ok = request::all_c_strings(request::argv_bytes(c.config.argv@));
            let env_ok = request::all_c_strings(request::env_bytes(c.config.env@));
            &&& !argv_ok ==> {
                &&& c.states[k + 1] matches RunState::Removal { result: Err(error) }
                &&& error == SandboxError::ConfigInvalid("argv contains null byte")
            }
            &&& argv_ok && !env_ok ==> {
                &&& c.states[k + 1] matches RunState::Removal { result: Err(error) }
                &&& error == SandboxError::ConfigInvalid("env key or value contains null byte")
            }
            &&& argv_ok && env_ok ==> c.states[k + 1] is Spawn
        }),
{
    lemma_past_is_known(c, k);
    assert(c.goes_on(k));
}

} // verus!
