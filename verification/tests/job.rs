use brink::job::{
    cpu_quota_us, default_cpu_pct, default_memory_mb, default_pids_max, default_timeout_secs,
    job_config, job_result, result_with_texts, termination_string, Job,
};
use brink::report::{ExecutionReport, TerminationReason, TimeSpan};

fn job() -> Job {
    Job {
        argv: vec!["/usr/bin/python3".to_string(), "-c".to_string()],
        env: vec![("A".to_string(), "1".to_string())],
        workspace: "/tmp/ws".to_string(),
        cgroup_parent: "/sys/fs/cgroup/user.slice".to_string(),
        memory_mb: default_memory_mb(),
        cpu_pct: default_cpu_pct(),
        timeout_secs: default_timeout_secs(),
        pids_max: default_pids_max(),
        extra_ro_mounts: vec![("/usr".to_string(), "/usr".to_string())],
    }
}

fn report() -> ExecutionReport {
    ExecutionReport {
        exit_status: 0,
        termination_reason: TerminationReason::Exited(0),
        stdout_bytes: b"hello\n".to_vec(),
        stderr_bytes: vec![b'a', 0xff],
        wall_time: TimeSpan { secs: 0, nanos: 42_999_999 },
        peak_memory_bytes: 8_519_680,
        cpu_time_us: 18_000,
        seccomp_violation: None,
    }
}

#[test]
fn defaults_are_as_documented() {
    assert_eq!(default_memory_mb(), 128);
    assert_eq!(default_cpu_pct(), 50);
    assert_eq!(default_timeout_secs(), 10);
    assert_eq!(default_pids_max(), 64);
}

#[test]
fn job_becomes_a_configuration() {
    let config = job_config(job());
    assert_eq!(config.workspace_path, b"/tmp/ws".to_vec());
    assert_eq!(config.memory_max_bytes, 128 * 1024 * 1024);
    assert_eq!(config.cpu_quota_us, 50_000);
    assert_eq!(config.cpu_period_us, 100_000);
    assert_eq!(config.pids_max, 64);
    assert_eq!(config.ttl, TimeSpan { secs: 10, nanos: 0 });
    assert_eq!(config.argv, vec!["/usr/bin/python3", "-c"]);
    assert_eq!(config.env, vec![("A".to_string(), "1".to_string())]);
    assert_eq!(config.resource_limits.max_open_files, 256);
    assert_eq!(config.resource_limits.max_file_size_bytes, 64 * 1024 * 1024);
    assert_eq!(config.resource_limits.stack_size_bytes, 8 * 1024 * 1024);
    assert_eq!(config.cgroup_parent, b"/sys/fs/cgroup/user.slice".to_vec());
    assert_eq!(config.extra_ro_mounts, vec![(b"/usr".to_vec(), b"/usr".to_vec())]);
    assert!(config.validate().is_ok());
}

#[test]
fn share_of_the_processor_is_clamped() {
    assert_eq!(cpu_quota_us(0), 1_000);
    assert_eq!(cpu_quota_us(1), 1_000);
    assert_eq!(cpu_quota_us(33), 33_000);
    assert_eq!(cpu_quota_us(100), 100_000);
    assert_eq!(cpu_quota_us(u64::MAX), 100_000);
}

#[test]
fn job_without_time_cannot_be_run() {
    let config = job_config(Job { timeout_secs: 0, ..job() });
    assert!(config.validate().is_err());
}

#[test]
fn reasons_are_put_into_words() {
    let cases = [
        (TerminationReason::Exited(0), "exited(0)"),
        (TerminationReason::Exited(-1), "exited(-1)"),
        (TerminationReason::TimedOut, "timed_out"),
        (TerminationReason::OomKilled, "oom_killed"),
        (TerminationReason::SeccompViolation(101), "seccomp_violation(101)"),
        (TerminationReason::SignalKilled(11), "signal_killed(11)"),
        (TerminationReason::CgroupKillFallback, "cgroup_kill_fallback"),
    ];
    for (reason, words) in cases {
        assert_eq!(termination_string(&reason), words);
    }
}

#[test]
fn report_becomes_a_result() {
    let result = job_result(&report());
    assert_eq!(result.exit_status, 0);
    assert_eq!(result.stdout, "hello\n");
    assert_eq!(result.stderr, "a\u{fffd}");
    assert_eq!(result.wall_time_ms, 42);
    assert_eq!(result.peak_memory_bytes, 8_519_680);
    assert_eq!(result.cpu_time_us, 18_000);
    assert_eq!(result.termination, "exited(0)");
    assert_eq!(result.seccomp_violation, None);
    assert!(result.ok);
    let result = result_with_texts(&report(), "o".to_string(), "e".to_string());
    assert_eq!((result.stdout.as_str(), result.stderr.as_str()), ("o", "e"));
}

#[test]
fn milliseconds_are_counted() {
    assert_eq!(TimeSpan { secs: 2, nanos: 999_999_999 }.as_millis_u64(), 2_999);
    let long = std::time::Duration::new(u64::MAX, 5_000_000);
    let span = TimeSpan { secs: u64::MAX, nanos: 5_000_000 };
    assert_eq!(span.as_millis_u64(), long.as_millis() as u64);
    assert!(TimeSpan { secs: 0, nanos: 0 }.is_zero());
    assert!(!TimeSpan { secs: 0, nanos: 1 }.is_zero());
}

#[test]
fn lengths_of_time_are_subtracted() {
    let a = TimeSpan { secs: 5, nanos: 1 };
    let b = TimeSpan { secs: 3, nanos: 2 };
    assert_eq!(a.minus(&b), TimeSpan { secs: 1, nanos: 999_999_999 });
    assert_eq!(b.minus(&a), TimeSpan { secs: 0, nanos: 0 });
    let most = TimeSpan { secs: u64::MAX, nanos: 999_999_999 };
    assert_eq!(most.minus(&TimeSpan { secs: 0, nanos: 0 }), most);
    assert!(most.is_wf() && !TimeSpan { secs: 0, nanos: 1_000_000_000 }.is_wf());
}
