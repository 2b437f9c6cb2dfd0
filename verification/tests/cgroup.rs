use brink::cgroup::{
    current_pids, kill_all, kill_failed, parse_cpu_stat, peak_memory_bytes, unique_id,
    write_cgroup_procs, CgroupFault, CgroupFile, CgroupOp, CgroupRemoval, CgroupSetup,
    RemovalAction,
};
use brink::config::{ResourceLimits, SandboxConfig};
use brink::error::{IoFailure, SandboxError};
use brink::report::TimeSpan;

fn config() -> SandboxConfig {
    SandboxConfig {
        workspace_path: b"/tmp/ws".to_vec(),
        memory_max_bytes: 134_217_728,
        cpu_quota_us: 50_000,
        cpu_period_us: 100_000,
        pids_max: 32,
        ttl: TimeSpan { secs: 5, nanos: 0 },
        argv: vec!["/bin/true".to_string()],
        env: vec![],
        resource_limits: ResourceLimits {
            max_open_files: 64,
            max_file_size_bytes: 1,
            stack_size_bytes: 1,
        },
        cgroup_parent: b"/sys/fs/cgroup/x".to_vec(),
        extra_ro_mounts: vec![],
    }
}

fn text(bytes: &[u8]) -> String {
    String::from_utf8(bytes.to_vec()).unwrap()
}

fn describe(op: &CgroupOp<Vec<u8>>) -> String {
    match op {
        CgroupOp::Probe { path } => format!("probe {}", text(path)),
        CgroupOp::MakeDir { path } => format!("mkdir {}", text(path)),
        CgroupOp::Write { file, write } => {
            assert!(text(&write.path).ends_with(file.name()));
            format!("{} > {}", text(&write.content), text(&write.path))
        }
    }
}

#[test]
fn cgroup_is_made_step_by_step() {
    let mut setup = CgroupSetup::create(&config(), 77);
    assert_eq!(text(&setup.path), "/sys/fs/cgroup/x/sandbox-77");
    let mut got = vec![];
    while let Some(op) = setup.pending() {
        got.push(describe(op));
        assert!(setup.on_step(None).is_ok());
    }
    assert_eq!(
        got,
        vec![
            "probe /sys/fs/cgroup/x/cgroup.subtree_control",
            "+memory +cpu +pids > /sys/fs/cgroup/x/cgroup.subtree_control",
            "mkdir /sys/fs/cgroup/x/sandbox-77",
            "134217728 > /sys/fs/cgroup/x/sandbox-77/memory.max",
            "0 > /sys/fs/cgroup/x/sandbox-77/memory.swap.max",
            "50000 100000 > /sys/fs/cgroup/x/sandbox-77/cpu.max",
            "32 > /sys/fs/cgroup/x/sandbox-77/pids.max",
        ]
    );
}

fn fault(missing: bool, permission_denied: bool) -> Option<CgroupFault> {
    let failure = IoFailure { text: "no".to_string() };
    Some(CgroupFault { missing, permission_denied, failure })
}

fn fail_at(step: usize, fault: Option<CgroupFault>) -> SandboxError {
    let mut setup = CgroupSetup::create(&config(), 1);
    for _ in 0..step {
        assert!(setup.on_step(None).is_ok());
    }
    match setup.on_step(fault) {
        Err(failure) => {
            assert_eq!(failure.directory_left, step > 2);
            failure.error
        }
        Ok(()) => panic!("no failure"),
    }
}

#[test]
fn each_step_fails_in_its_own_way() {
    assert!(matches!(fail_at(0, fault(true, false)), SandboxError::CgroupDelegationMissing));
    assert!(matches!(fail_at(0, fault(false, true)), SandboxError::CgroupDelegationMissing));
    assert!(matches!(fail_at(0, fault(false, false)), SandboxError::CgroupCreateFailed(_)));
    assert!(matches!(fail_at(2, fault(false, true)), SandboxError::CgroupCreateFailed(_)));
    for (step, name) in [
        (1, "cgroup.subtree_control"),
        (3, "memory.max"),
        (4, "memory.swap.max"),
        (5, "cpu.max"),
        (6, "pids.max"),
    ] {
        match fail_at(step, fault(true, true)) {
            SandboxError::CgroupWriteFailed { path, source } => {
                assert_eq!(path, name);
                assert_eq!(source.text, "no");
            }
            _ => panic!("another error"),
        }
    }
}

#[test]
fn cgroup_is_joined_and_killed_by_a_write() {
    let path = b"/sys/fs/cgroup/x".to_vec();
    let join = write_cgroup_procs(&path, 4711);
    assert_eq!(text(&join.path), "/sys/fs/cgroup/x/cgroup.procs");
    assert_eq!(text(&join.content), "4711");
    let kill = kill_all(&path);
    assert_eq!(text(&kill.path), "/sys/fs/cgroup/x/cgroup.kill");
    assert_eq!(text(&kill.content), "1");
    match kill_failed(IoFailure { text: "no".to_string() }) {
        SandboxError::CgroupWriteFailed { path, source } => {
            assert_eq!(path, "cgroup.kill");
            assert_eq!(source.text, "no");
        }
        _ => panic!("another error"),
    }
}

#[test]
fn figures_are_read() {
    assert_eq!(peak_memory_bytes(Some("8519680\n")), 8_519_680);
    assert_eq!(peak_memory_bytes(None), 0);
    assert_eq!(peak_memory_bytes(Some("max")), 0);
    let stat = "usage_usec 18000\nuser_usec 10000\nsystem_usec 8000\n";
    assert_eq!(parse_cpu_stat(Some(stat)), 18_000);
    assert_eq!(parse_cpu_stat(None), 0);
    assert_eq!(current_pids(Some("3\n")), 3);
    assert_eq!(current_pids(None), 0);
}

#[test]
fn cgroup_files_have_their_names() {
    let dir = b"/c".to_vec();
    assert_eq!(text(&CgroupFile::MemoryPeak.path_in(&dir)), "/c/memory.peak");
    assert_eq!(text(&CgroupFile::CpuStat.path_in(&dir)), "/c/cpu.stat");
    assert_eq!(text(&CgroupFile::MemoryEvents.path_in(&dir)), "/c/memory.events");
    assert_eq!(text(&CgroupFile::PidsCurrent.path_in(&dir)), "/c/pids.current");
}

#[test]
fn numbers_come_from_clock_and_process() {
    assert_eq!(unique_id(Some(5), 0), 5);
    assert_eq!(unique_id(None, 3), 3 << 48);
    assert_eq!(unique_id(Some((1 << 64) + 9), 1), 9 ^ (1 << 48));
    assert!(unique_id(Some(5), 7) != unique_id(Some(6), 7));
    assert!(unique_id(Some(5), 7) != unique_id(Some(5), 8));
}

#[test]
fn empty_cgroup_is_removed_at_once() {
    let (mut removal, action) = CgroupRemoval::new();
    assert_eq!(action, RemovalAction::Kill);
    assert_eq!(removal.on_wake(), RemovalAction::ReadPids);
    assert_eq!(removal.on_pids(Some("2\n")), RemovalAction::Sleep);
    assert_eq!(removal.on_wake(), RemovalAction::ReadPids);
    assert_eq!(removal.on_pids(Some("0\n")), RemovalAction::RemoveDir);
}

#[test]
fn busy_cgroup_is_removed_in_the_end() {
    let (mut removal, _) = CgroupRemoval::new();
    let mut sleeps = 0;
    while removal.on_wake() == RemovalAction::ReadPids {
        assert!(sleeps < 500);
        assert_eq!(removal.on_pids(Some("1")), RemovalAction::Sleep);
        sleeps += 1;
    }
    assert_eq!(sleeps, 500);
    assert_eq!(removal.on_wake(), RemovalAction::RemoveDir);
}
