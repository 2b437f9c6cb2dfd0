use brink::error::{ChildStage, IoFailure, SandboxError};

fn io(text: &str) -> IoFailure {
    IoFailure { text: text.to_string() }
}

#[test]
fn stages_have_their_numbers() {
    let stages = [
        (1, ChildStage::WaitForMapping, "WaitForMapping"),
        (2, ChildStage::BreakPropagation, "BreakPropagation"),
        (3, ChildStage::BuildRootfs, "BuildRootfs"),
        (4, ChildStage::MountDevpts, "MountDevpts"),
        (5, ChildStage::MountProc, "MountProc"),
        (6, ChildStage::MountWorkspace, "MountWorkspace"),
        (7, ChildStage::MaskProc, "MaskProc"),
        (8, ChildStage::PivotRoot, "PivotRoot"),
        (9, ChildStage::Landlock, "Landlock"),
        (10, ChildStage::CapabilityDrop, "CapabilityDrop"),
        (11, ChildStage::PtySlaveSetup, "PtySlaveSetup"),
        (12, ChildStage::NoNewPrivs, "NoNewPrivs"),
        (13, ChildStage::Seccomp, "Seccomp"),
        (14, ChildStage::Exec, "Exec"),
    ];
    for (code, stage, name) in stages {
        assert_eq!(ChildStage::from_u8(code), Some(stage));
        assert_eq!(stage.to_u8(), code);
        assert_eq!(stage.name(), name);
        assert_eq!(format!("{:?}", stage), name);
    }
    assert_eq!(ChildStage::from_u8(0), None);
    for code in 15..=255u8 {
        assert_eq!(ChildStage::from_u8(code), None);
    }
}

#[test]
fn messages_name_the_error() {
    let eperm = format!("{}", nix::errno::Errno::EPERM);
    assert!(eperm.starts_with("EPERM"));
    let p = libc::EPERM;
    let cases = [
        (SandboxError::CgroupCreateFailed(io("boom")), "cgroup create failed: boom".to_string()),
        (
            SandboxError::CgroupDelegationMissing,
            "cgroup v2 delegation missing: cgroup_parent path is not writable; configure systemd Delegate=yes or grant write access to the subtree".to_string(),
        ),
        (
            SandboxError::NamespaceCloneFailed(p),
            format!("clone3(CLONE_NEWUSER|…) failed: {}", eperm),
        ),
        (
            SandboxError::UserNamespaceSetupFailed(p),
            format!("uid/gid mapping write failed: {}", eperm),
        ),
        (
            SandboxError::MountFailed { step: "bind", source: p },
            format!("mount failed at 'bind': {}", eperm),
        ),
        (SandboxError::PivotRootFailed(p), format!("pivot_root failed: {}", eperm)),
        (
            SandboxError::LandlockUnsupported(1),
            "Landlock ABI version 1 is below required minimum 2 (needs Linux 5.19+)".to_string(),
        ),
        (
            SandboxError::LandlockRulesetFailed(p),
            format!("Landlock ruleset operation failed: {}", eperm),
        ),
        (SandboxError::SeccompLoadFailed(p), format!("seccomp filter load failed: {}", eperm)),
        (SandboxError::PtyOpenFailed(p), format!("PTY open failed: {}", eperm)),
        (
            SandboxError::ForkServerUnavailable,
            "fork server is unavailable or crashed; was Runtime::init() called?".to_string(),
        ),
        (SandboxError::ExecFailed(p), format!("execve failed: {}", eperm)),
        (SandboxError::IoTimeout, "I/O timeout reading from PTY master".to_string()),
        (SandboxError::WaitFailed(p), format!("waitid(P_PIDFD) failed: {}", eperm)),
        (SandboxError::ConfigInvalid("bad"), "invalid SandboxConfig: bad".to_string()),
        (SandboxError::IpcError(io("gone")), "IPC error with fork server: gone".to_string()),
        (
            SandboxError::CgroupWriteFailed { path: "memory.max", source: io("no") },
            "cgroup write to 'memory.max' failed: no".to_string(),
        ),
        (
            SandboxError::ChildSetupFailed { stage: ChildStage::PivotRoot, errno: 16 },
            "child setup failed at stage PivotRoot (errno 16)".to_string(),
        ),
        (SandboxError::CapabilityDropFailed(p), format!("capability drop failed: {}", eperm)),
    ];
    for (error, message) in cases {
        assert_eq!(error.message(), message);
    }
}

#[test]
fn some_errors_have_a_source() {
    assert_eq!(SandboxError::IpcError(io("a")).source().unwrap().text, "a");
    assert_eq!(SandboxError::CgroupCreateFailed(io("b")).source().unwrap().text, "b");
    let write = SandboxError::CgroupWriteFailed { path: "x", source: io("c") };
    assert_eq!(write.source().unwrap().text, "c");
    assert!(SandboxError::IoTimeout.source().is_none());
    assert!(SandboxError::ExecFailed(1).source().is_none());
}
