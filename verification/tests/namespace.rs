use brink::error::{ChildStage, SandboxError};
use brink::ipc::SpawnRequest;
use brink::mount::MountOp;
use brink::namespace::{
    child_failure, child_setup, clone_outcome, report_child_error, write_uid_gid_maps, ChildFds,
    ChildOp, ChildRun, CloneResult, IdMapping, Limit, CLONE_FLAGS, SECURE_BITS, SIGKILL,
};

fn request() -> SpawnRequest {
    SpawnRequest {
        workspace_path: b"/home/ws".to_vec(),
        extra_ro_mounts: vec![],
        memory_max_bytes: 1,
        cpu_quota_us: 1,
        cpu_period_us: 1,
        pids_max: 1,
        ttl_secs: 1,
        ttl_nanos: 0,
        argv: vec![b"/bin/true".to_vec(), b"x".to_vec()],
        env: vec![b"A=1".to_vec()],
        max_open_files: 100,
        max_file_size_bytes: 200,
        stack_size_bytes: 300,
        cgroup_path: b"/c".to_vec(),
        host_uid: 1000,
        host_gid: 1001,
    }
}

const FDS: ChildFds = ChildFds { sync_read_fd: 10, slave_fd: 11, stderr_write_fd: 12 };

fn describe(op: &ChildOp) -> String {
    match op {
        ChildOp::AwaitMapping { fd } => format!("await {}", fd),
        ChildOp::SetParentDeathSignal { signal } => format!("pdeathsig {}", signal),
        ChildOp::CreateScratchRoot { path, mode } => {
            format!("scratch {} {:o}", String::from_utf8(path.clone()).unwrap(), mode)
        }
        ChildOp::Mount(_) => "mount".to_string(),
        ChildOp::ApplyLandlock { workspace, .. } => {
            format!("landlock {}", String::from_utf8(workspace.clone()).unwrap())
        }
        ChildOp::SetLimit { limit, value } => format!("limit {:?} {}", limit, value),
        ChildOp::SetSecureBits { bits } => format!("securebits {:#x}", bits),
        ChildOp::ClearCapabilities => "clear capabilities".to_string(),
        ChildOp::Duplicate { from, to } => format!("dup {} {}", from, to),
        ChildOp::Close { fd } => format!("close {}", fd),
        ChildOp::SetNoNewPrivs => "no new privs".to_string(),
        ChildOp::ClearDumpable => "not dumpable".to_string(),
        ChildOp::LoadFilter => "filter".to_string(),
        ChildOp::Exec { program, .. } => {
            format!("exec {}", String::from_utf8(program.clone()).unwrap())
        }
    }
}

#[test]
fn child_sets_itself_up_in_order() {
    let steps = child_setup(&request(), FDS, 7);
    let described: Vec<(String, Option<ChildStage>)> = steps
        .iter()
        .filter(|s| !matches!(s.op, ChildOp::Mount(_)))
        .map(|s| (describe(&s.op), s.on_failure))
        .collect();
    let want = vec![
        ("await 10", Some(ChildStage::WaitForMapping)),
        ("pdeathsig 9", None),
        ("scratch /tmp/sandbox-root-7 700", Some(ChildStage::BuildRootfs)),
        ("landlock /workspace", Some(ChildStage::Landlock)),
        ("limit OpenFiles 100", Some(ChildStage::Exec)),
        ("limit FileSize 200", Some(ChildStage::Exec)),
        ("limit StackSize 300", Some(ChildStage::Exec)),
        ("securebits 0x3e", Some(ChildStage::CapabilityDrop)),
        ("clear capabilities", Some(ChildStage::CapabilityDrop)),
        ("dup 11 0", Some(ChildStage::PtySlaveSetup)),
        ("dup 11 1", Some(ChildStage::PtySlaveSetup)),
        ("dup 12 2", Some(ChildStage::PtySlaveSetup)),
        ("close 11", None),
        ("close 12", None),
        ("close 10", None),
        ("no new privs", Some(ChildStage::NoNewPrivs)),
        ("not dumpable", None),
        ("filter", Some(ChildStage::Seccomp)),
        ("exec /bin/true", Some(ChildStage::Exec)),
    ];
    let want: Vec<(String, Option<ChildStage>)> =
        want.into_iter().map(|(s, f)| (s.to_string(), f)).collect();
    assert_eq!(described, want);
}

#[test]
fn file_system_stands_between_scratch_directory_and_landlock() {
    let steps = child_setup(&request(), FDS, 7);
    assert_eq!(steps.len(), 3 + 33 + 16);
    for (i, step) in steps.iter().enumerate() {
        assert_eq!(matches!(step.op, ChildOp::Mount(_)), (3..36).contains(&i));
        if let ChildOp::Mount(op) = &step.op {
            let harmless = matches!(op, MountOp::TryRemoveDir { .. });
            assert_eq!(step.on_failure.is_none(), harmless);
        }
    }
    assert_eq!(steps[3].on_failure, Some(ChildStage::BreakPropagation));
}

#[test]
fn setup_goes_through_to_the_program() {
    let mut run = ChildRun::new(&request(), FDS, 7);
    let mut count = 0;
    let mut last = String::new();
    while let Some(step) = run.pending() {
        last = describe(&step.op);
        count += 1;
        assert!(run.on_step(None).is_ok());
    }
    assert_eq!(count, 52);
    assert_eq!(last, "exec /bin/true");
}

#[test]
fn first_serious_failure_ends_the_setup() {
    let mut run = ChildRun::new(&request(), FDS, 7);
    assert_eq!(run.on_step(None), Ok(()));
    // The signal at the parent's death cannot be set: that is let pass.
    assert_eq!(run.on_step(Some(22)), Ok(()));
    assert_eq!(run.on_step(Some(17)), Err((ChildStage::BuildRootfs, 17)));
    assert_eq!(describe(&run.pending().unwrap().op), "scratch /tmp/sandbox-root-7 700");
}

#[test]
fn failure_of_a_restriction_keeps_the_program_from_starting() {
    for wanted in ["landlock /workspace", "clear capabilities", "no new privs", "filter"] {
        let mut run = ChildRun::new(&request(), FDS, 7);
        loop {
            let here = describe(&run.pending().unwrap().op);
            assert!(here != "exec /bin/true");
            if here == wanted {
                assert!(run.on_step(Some(1)).is_err());
                break;
            }
            assert!(run.on_step(None).is_ok());
        }
    }
}

#[test]
fn program_gets_arguments_and_environment_of_the_request() {
    match &child_setup(&request(), FDS, 7).last().unwrap().op {
        ChildOp::Exec { program, argv, env } => {
            assert_eq!(program, &b"/bin/true".to_vec());
            assert_eq!(argv, &vec![b"/bin/true".to_vec(), b"x".to_vec()]);
            assert_eq!(env, &vec![b"A=1".to_vec()]);
        }
        _ => panic!("another step"),
    }
}

#[test]
fn landlock_knows_the_extra_mounts() {
    let mut req = request();
    req.extra_ro_mounts = vec![(b"/opt".to_vec(), b"/usr".to_vec())];
    let steps = child_setup(&req, FDS, 7);
    let extra: Vec<_> = steps
        .iter()
        .filter_map(|s| match &s.op {
            ChildOp::ApplyLandlock { extra_ro, .. } => Some(extra_ro.clone()),
            _ => None,
        })
        .collect();
    assert_eq!(extra, vec![vec![(b"/opt".to_vec(), b"/usr".to_vec())]]);
}

#[test]
fn failures_cross_the_pipe() {
    let record = report_child_error(ChildStage::PivotRoot, 16);
    assert_eq!(record, vec![8, 16, 0, 0, 0]);
    let mut buf = [0u8; 5];
    buf.copy_from_slice(&record);
    assert_eq!(child_failure(5, &buf), Some((ChildStage::PivotRoot, 16)));
    assert_eq!(child_failure(0, &buf), None);
    assert_eq!(child_failure(-1, &buf), None);
    let negative = report_child_error(ChildStage::Exec, -2);
    buf.copy_from_slice(&negative);
    assert_eq!(child_failure(5, &buf), Some((ChildStage::Exec, -2)));
    assert_eq!(child_failure(5, &[99, 2, 0, 0, 0]), Some((ChildStage::Exec, 2)));
    assert_eq!(child_failure(1, &[3, 0, 0, 0, 0]), Some((ChildStage::BuildRootfs, 0)));
}

#[test]
fn users_and_groups_are_mapped_in_order() {
    let writes = write_uid_gid_maps(42, 1000, 1001);
    let got: Vec<(String, String)> = writes
        .iter()
        .map(|w| {
            (
                String::from_utf8(w.path.clone()).unwrap(),
                String::from_utf8(w.content.clone()).unwrap(),
            )
        })
        .collect();
    let want = [
        ("/proc/42/setgroups", "deny"),
        ("/proc/42/uid_map", "65534 1000 1\n"),
        ("/proc/42/gid_map", "65534 1001 1\n"),
    ];
    assert_eq!(got.len(), 3);
    for (g, w) in got.iter().zip(want.iter()) {
        assert_eq!((g.0.as_str(), g.1.as_str()), *w);
    }
}

#[test]
fn creation_has_three_outcomes() {
    assert_eq!(clone_outcome(-1, 8, 11), Err(11));
    assert_eq!(clone_outcome(0, 8, 11), Ok(None));
    assert_eq!(
        clone_outcome(4711, 8, 11),
        Ok(Some(CloneResult { child_pid: 4711, pidfd: 8 }))
    );
}

#[test]
fn namespace_constants_are_those_of_the_system() {
    assert_eq!(
        CLONE_FLAGS,
        (libc::CLONE_NEWUSER
            | libc::CLONE_NEWPID
            | libc::CLONE_NEWNS
            | libc::CLONE_NEWNET
            | libc::CLONE_NEWUTS
            | libc::CLONE_NEWIPC
            | libc::CLONE_NEWCGROUP
            | libc::CLONE_PIDFD) as u64
    );
    assert_eq!(SIGKILL, libc::SIGKILL);
    assert_eq!(SECURE_BITS, 0b111110);
    assert!(Limit::OpenFiles != Limit::FileSize);
}

#[test]
fn mapping_stops_at_the_first_failure() {
    let mut mapping = IdMapping::new(42, 1000, 1001);
    let mut names = vec![];
    while let Some(write) = mapping.pending() {
        names.push(String::from_utf8(write.path).unwrap());
        assert!(mapping.on_write(Ok(())).is_ok());
    }
    assert_eq!(names, vec!["/proc/42/setgroups", "/proc/42/uid_map", "/proc/42/gid_map"]);
    let mut mapping = IdMapping::new(42, 1000, 1001);
    assert!(mapping.on_write(Ok(())).is_ok());
    assert!(matches!(
        mapping.on_write(Err(1)),
        Err(SandboxError::UserNamespaceSetupFailed(1))
    ));
    assert_eq!(mapping.pending().unwrap().path, b"/proc/42/uid_map".to_vec());
}
