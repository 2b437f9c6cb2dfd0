use brink::cgroup::SetupFailure;
use brink::collect::{Collector, Ending, Stream, StreamRead};
use brink::config::{ResourceLimits, SandboxConfig};
use brink::error::{ChildStage, IoFailure, SandboxError};
use brink::fork_server::SpawnResponse;
use brink::namespace::report_child_error;
use brink::report::{ExecutionReport, TerminationReason, TimeSpan};
use brink::request::{build_argv, build_env, build_request};
use brink::supervisor::{accepts, run, start_run, RunAction, RunEvent, RunState, Running};

fn config() -> SandboxConfig {
    SandboxConfig {
        workspace_path: b"/tmp/ws".to_vec(),
        memory_max_bytes: 1 << 27,
        cpu_quota_us: 50_000,
        cpu_period_us: 100_000,
        pids_max: 32,
        ttl: TimeSpan { secs: 5, nanos: 6 },
        argv: vec!["/bin/sh".to_string(), "-c".to_string(), "\u{e9}".to_string()],
        env: vec![("PATH".to_string(), "/bin".to_string()), ("E".to_string(), "".to_string())],
        resource_limits: ResourceLimits {
            max_open_files: 64,
            max_file_size_bytes: 65,
            stack_size_bytes: 66,
        },
        cgroup_parent: b"/sys/fs/cgroup/x".to_vec(),
        extra_ro_mounts: vec![(b"/bin".to_vec(), b"/bin".to_vec())],
    }
}

const CHILD: SpawnResponse =
    SpawnResponse { pidfd: 20, err_pipe_rd: 21, stderr_pipe_rd: 22, child_pid: 4711 };

fn failure() -> IoFailure {
    IoFailure { text: "no".to_string() }
}

fn step(state: RunState, event: RunEvent) -> (RunState, RunAction) {
    assert!(accepts(&state, &event));
    run(state, event)
}

fn at(secs: u64, nanos: u32) -> TimeSpan {
    TimeSpan { secs, nanos }
}

/// A run whose program was asked for at 100 s and found running at 101 s.
fn running() -> RunState {
    let (state, action) = start_run(config(), 9);
    match action {
        RunAction::MakeCgroup(setup) => {
            assert_eq!(setup.path, b"/sys/fs/cgroup/x/sandbox-9".to_vec());
        }
        _ => panic!("another action"),
    }
    let (state, action) = step(state, RunEvent::CgroupMade(Ok(())));
    assert!(matches!(action, RunAction::OpenTerminal));
    let (state, action) = step(state, RunEvent::TerminalOpened(Ok(())));
    assert!(matches!(action, RunAction::ReadIds));
    let (state, action) = step(state, RunEvent::Ids { uid: 1000, gid: 1001 });
    match action {
        RunAction::Spawn(req) => {
            assert_eq!(req.cgroup_path, b"/sys/fs/cgroup/x/sandbox-9".to_vec());
            assert_eq!((req.host_uid, req.host_gid), (1000, 1001));
            assert_eq!((req.ttl_secs, req.ttl_nanos), (5, 6));
            assert_eq!(req.env, vec![b"PATH=/bin".to_vec(), b"E=".to_vec()]);
        }
        _ => panic!("another action"),
    }
    let spawned = RunEvent::Spawned { requested_at: at(100, 0), spawned: Ok(CHILD) };
    let (state, action) = step(state, spawned);
    assert!(matches!(action, RunAction::ReadErrorPipe { fd: 21 }));
    let event = RunEvent::ErrorPipe { n: 0, record: [0; 5], now: at(101, 0) };
    let (state, action) = step(state, event);
    match action {
        RunAction::CollectOutput { stderr_fd, ttl } => {
            assert_eq!(stderr_fd, 22);
            assert_eq!(ttl, at(5, 6));
        }
        _ => panic!("another action"),
    }
    state
}

fn output(over: Ending, now: TimeSpan) -> RunEvent {
    let mut collector = Collector::new();
    collector.on_read(Stream::Stdout, StreamRead::Data(b"out".to_vec()));
    collector.on_read(Stream::Stderr, StreamRead::Data(b"err".to_vec()));
    collector.over = Some(over);
    RunEvent::Output { collector, now }
}

/// A run whose streams have ended at 103 s.
fn silent() -> RunState {
    let (state, action) = step(running(), output(Ending::Complete, at(103, 7)));
    match action {
        RunAction::AwaitExit { pidfd, rest } => {
            assert_eq!(pidfd, 20);
            assert_eq!(rest, at(2, 999_999_999));
        }
        _ => panic!("another action"),
    }
    state
}

/// A run whose program is gone at 104 s.
fn exited() -> RunState {
    let (state, action) = step(silent(), RunEvent::Exited { at: at(104, 5) });
    match action {
        RunAction::Reap { child_pid, memory_events } => {
            assert_eq!(child_pid, 4711);
            assert_eq!(memory_events, b"/sys/fs/cgroup/x/sandbox-9/memory.events".to_vec());
        }
        _ => panic!("another action"),
    }
    state
}

fn figures() -> RunEvent {
    RunEvent::Figures {
        memory_peak: Some("8519680\n".to_string()),
        cpu_stat: Some("usage_usec 18000\n".to_string()),
    }
}

/// Ends a run that is about to remove its cgroup.
fn finish(state: RunState, action: RunAction) -> RunAction {
    match action {
        RunAction::RemoveCgroup { path } => {
            assert_eq!(path, b"/sys/fs/cgroup/x/sandbox-9".to_vec());
        }
        _ => panic!("another action"),
    }
    let (state, action) = step(state, RunEvent::CgroupRemoved);
    assert!(matches!(state, RunState::Over));
    action
}

fn report_of(action: RunAction) -> ExecutionReport {
    match action {
        RunAction::Finish(Ok(report)) => report,
        _ => panic!("no report"),
    }
}

fn error_of(action: RunAction) -> SandboxError {
    match action {
        RunAction::Finish(Err(error)) => error,
        _ => panic!("no error"),
    }
}

#[test]
fn run_that_exits_is_reported() {
    let status = Ok((3, TerminationReason::Exited(3)));
    let (state, action) = step(exited(), RunEvent::Status(status));
    match action {
        RunAction::ReadFigures { memory_peak, cpu_stat } => {
            assert_eq!(memory_peak, b"/sys/fs/cgroup/x/sandbox-9/memory.peak".to_vec());
            assert_eq!(cpu_stat, b"/sys/fs/cgroup/x/sandbox-9/cpu.stat".to_vec());
        }
        _ => panic!("another action"),
    }
    let (state, action) = step(state, figures());
    let report = report_of(finish(state, action));
    assert_eq!(report.exit_status, 3);
    assert_eq!(report.termination_reason, TerminationReason::Exited(3));
    assert_eq!(report.stdout_bytes, b"out".to_vec());
    assert_eq!(report.stderr_bytes, b"err".to_vec());
    assert_eq!(report.wall_time, at(4, 5));
    assert_eq!(report.peak_memory_bytes, 8_519_680);
    assert_eq!(report.cpu_time_us, 18_000);
    assert_eq!(report.seccomp_violation, None);
}

/// Ends a run whose time is up.
fn killed(state: RunState, action: RunAction) -> ExecutionReport {
    match action {
        RunAction::KillCgroup(write) => {
            assert_eq!(write.path, b"/sys/fs/cgroup/x/sandbox-9/cgroup.kill".to_vec());
            assert_eq!(write.content, b"1".to_vec());
        }
        _ => panic!("another action"),
    }
    let (state, action) = step(state, RunEvent::Killed(Ok(())));
    assert!(matches!(action, RunAction::AwaitGone { pidfd: 20 }));
    let (state, action) = step(state, RunEvent::Gone { at: at(106, 1) });
    assert!(matches!(action, RunAction::ReadFigures { .. }));
    let (state, action) =
        step(state, RunEvent::Figures { memory_peak: None, cpu_stat: None });
    report_of(finish(state, action))
}

#[test]
fn run_out_of_time_is_killed() {
    let (state, action) = step(running(), output(Ending::TimeUp, at(106, 0)));
    let report = killed(state, action);
    assert_eq!(report.exit_status, -1);
    assert_eq!(report.termination_reason, TerminationReason::TimedOut);
    assert_eq!(report.stdout_bytes, b"out".to_vec());
    assert_eq!(report.wall_time, at(6, 1));
    assert_eq!(report.peak_memory_bytes, 0);
    assert_eq!(report.cpu_time_us, 0);
}

#[test]
fn program_that_outlives_its_streams_is_killed_too() {
    let (state, action) = step(silent(), RunEvent::TimeUp);
    let report = killed(state, action);
    assert_eq!(report.exit_status, -1);
    assert_eq!(report.termination_reason, TerminationReason::TimedOut);
    assert_eq!(report.stdout_bytes, b"out".to_vec());
    assert_eq!(report.stderr_bytes, b"err".to_vec());
}

#[test]
fn no_time_is_left_after_the_deadline() {
    let (_, action) = step(running(), output(Ending::Complete, at(200, 0)));
    assert!(matches!(action, RunAction::AwaitExit { rest: TimeSpan { secs: 0, nanos: 0 }, .. }));
}

#[test]
fn filter_kill_names_the_system_call() {
    let status = Ok((31, TerminationReason::SeccompViolation(101)));
    let (state, _) = step(exited(), RunEvent::Status(status));
    let (state, action) = step(state, figures());
    let report = report_of(finish(state, action));
    assert_eq!(report.seccomp_violation, Some(101));
    assert_eq!(report.termination_reason, TerminationReason::SeccompViolation(101));
}

#[test]
fn invalid_configuration_never_starts() {
    let (state, action) = start_run(SandboxConfig { pids_max: 0, ..config() }, 1);
    assert!(matches!(state, RunState::Over));
    assert!(matches!(
        error_of(action),
        SandboxError::ConfigInvalid("pids_max must be non-zero")
    ));
}

fn setup_failure(directory_left: bool) -> RunEvent {
    let error = SandboxError::CgroupWriteFailed { path: "memory.max", source: failure() };
    RunEvent::CgroupMade(Err(SetupFailure { error, directory_left }))
}

#[test]
fn cgroup_that_was_not_made_is_not_removed() {
    let (state, _) = start_run(config(), 9);
    let (state, action) = step(state, setup_failure(false));
    assert!(matches!(state, RunState::Over));
    assert!(matches!(error_of(action), SandboxError::CgroupWriteFailed { .. }));
}

#[test]
fn half_made_cgroup_is_removed() {
    let (state, _) = start_run(config(), 9);
    let (state, action) = step(state, setup_failure(true));
    assert!(matches!(
        error_of(finish(state, action)),
        SandboxError::CgroupWriteFailed { path: "memory.max", .. }
    ));
}

#[test]
fn failures_end_the_run() {
    let (state, _) = start_run(config(), 9);
    let (state, _) = step(state, RunEvent::CgroupMade(Ok(())));
    let (state, action) = step(state, RunEvent::TerminalOpened(Err(12)));
    assert!(matches!(error_of(finish(state, action)), SandboxError::PtyOpenFailed(12)));

    let path = b"/sys/fs/cgroup/x/sandbox-9".to_vec();
    let state = RunState::Spawn { ttl: at(1, 0), cgroup_path: path };
    let spawned = RunEvent::Spawned {
        requested_at: at(1, 0),
        spawned: Err(SandboxError::ForkServerUnavailable),
    };
    let (state, action) = step(state, spawned);
    assert!(matches!(error_of(finish(state, action)), SandboxError::ForkServerUnavailable));

    // Output that was collected in part only is no result.
    let (state, action) = step(running(), output(Ending::Failed(failure()), at(102, 0)));
    assert!(
        matches!(error_of(finish(state, action)), SandboxError::IpcError(e) if e.text == "no")
    );

    let (state, action) = step(silent(), RunEvent::WaitFailed(9));
    assert!(matches!(error_of(finish(state, action)), SandboxError::WaitFailed(9)));

    let (state, _) = step(silent(), RunEvent::TimeUp);
    let (state, action) = step(state, RunEvent::Killed(Err(failure())));
    assert!(matches!(
        error_of(finish(state, action)),
        SandboxError::CgroupWriteFailed { path: "cgroup.kill", .. }
    ));

    let (state, action) =
        step(exited(), RunEvent::Status(Err(SandboxError::WaitFailed(2))));
    assert!(matches!(error_of(finish(state, action)), SandboxError::WaitFailed(2)));
}

#[test]
fn failed_setup_is_reported() {
    let state = RunState::ErrorPipe {
        ttl: at(1, 0),
        running: Running {
            cgroup_path: b"/sys/fs/cgroup/x/sandbox-9".to_vec(),
            child: CHILD,
            requested_at: at(0, 0),
        },
    };
    let mut record = [0u8; 5];
    record.copy_from_slice(&report_child_error(ChildStage::Exec, libc::ENOENT));
    let (state, action) = step(state, RunEvent::ErrorPipe { n: 5, record, now: at(1, 0) });
    assert!(matches!(
        error_of(finish(state, action)),
        SandboxError::ChildSetupFailed { stage: ChildStage::Exec, errno: libc::ENOENT }
    ));
}

#[test]
fn zero_bytes_end_the_run_before_the_child() {
    let bad_argv = SandboxConfig { argv: vec!["a\0b".to_string()], ..config() };
    let bad_env = SandboxConfig { env: vec![("A".to_string(), "\0".to_string())], ..config() };
    for (config, message) in [
        (bad_argv, "argv contains null byte"),
        (bad_env, "env key or value contains null byte"),
    ] {
        let (state, _) = start_run(config, 9);
        let (state, _) = step(state, RunEvent::CgroupMade(Ok(())));
        let (state, _) = step(state, RunEvent::TerminalOpened(Ok(())));
        let (state, action) = step(state, RunEvent::Ids { uid: 0, gid: 0 });
        let error = error_of(finish(state, action));
        assert!(matches!(error, SandboxError::ConfigInvalid(m) if m == message));
    }
}

#[test]
fn arguments_and_environment_are_built() {
    let argv = build_argv(&config()).unwrap();
    assert_eq!(argv, vec![b"/bin/sh".to_vec(), b"-c".to_vec(), vec![0xc3, 0xa9]]);
    let env = build_env(&config()).unwrap();
    assert_eq!(env, vec![b"PATH=/bin".to_vec(), b"E=".to_vec()]);
    let bad = SandboxConfig { argv: vec!["x\0".to_string()], env: vec![("\0".to_string(), "".to_string())], ..config() };
    assert!(matches!(
        build_request(&bad, &vec![], 0, 0),
        Err(SandboxError::ConfigInvalid("argv contains null byte"))
    ));
    let req = build_request(&config(), &b"/c".to_vec(), 1, 2).unwrap();
    assert_eq!(req.workspace_path, b"/tmp/ws".to_vec());
    assert_eq!(req.extra_ro_mounts, vec![(b"/bin".to_vec(), b"/bin".to_vec())]);
    assert_eq!(req.memory_max_bytes, 1 << 27);
    assert_eq!((req.cpu_quota_us, req.cpu_period_us, req.pids_max), (50_000, 100_000, 32));
    assert_eq!(
        (req.max_open_files, req.max_file_size_bytes, req.stack_size_bytes),
        (64, 65, 66)
    );
}

#[test]
fn run_events_must_fit_their_state() {
    assert!(!accepts(&RunState::Over, &RunEvent::CgroupRemoved));
    assert!(!accepts(&silent(), &RunEvent::Gone { at: at(1, 0) }));
    assert!(!accepts(&silent(), &RunEvent::Exited { at: at(1, 1_000_000_000) }));
    let unfinished = RunEvent::Output { collector: Collector::new(), now: at(1, 0) };
    assert!(!accepts(&running(), &unfinished));
}
