use brink::error::ChildStage;
use brink::mount::{
    mask_mount, scratch_root_id, scratch_root_path, setup, MountContext, MountOp, MountStep,
    MS_BIND, MS_NODEV, MS_NOEXEC, MS_NOSUID, MS_PRIVATE, MS_RDONLY, MS_REC, MS_REMOUNT,
};

fn plan(mounts: &Vec<(Vec<u8>, Vec<u8>)>) -> Vec<MountStep<Vec<u8>>> {
    setup(&MountContext {
        workspace_path: &b"/home/ws".to_vec(),
        extra_ro_mounts: mounts,
        scratch_id: 7,
    })
}

fn text(bytes: &[u8]) -> String {
    String::from_utf8(bytes.to_vec()).unwrap()
}

fn opt(bytes: &Option<Vec<u8>>) -> String {
    match bytes {
        Some(b) => text(b),
        None => "-".to_string(),
    }
}

fn describe(step: &MountStep<Vec<u8>>) -> String {
    let what = match &step.op {
        MountOp::Mount { source, target, fstype, flags, data } => format!(
            "mount {} {} {} {} {}",
            opt(source),
            text(target),
            opt(fstype),
            flags,
            opt(data)
        ),
        MountOp::CreateDir { path, mode } => format!("mkdir {} {:o}", text(path), mode),
        MountOp::CreateDirAll { path } => format!("mkdirs {}", text(path)),
        MountOp::CreateFile { path } => format!("touch {}", text(path)),
        MountOp::Mask { target, dir_stub, file_stub } => {
            format!("mask {} {} {}", text(target), text(dir_stub), text(file_stub))
        }
        MountOp::PivotRoot { new_root, put_old } => {
            format!("pivot {} {}", text(new_root), text(put_old))
        }
        MountOp::ChangeDir { path } => format!("cd {}", text(path)),
        MountOp::Detach { path } => format!("detach {}", text(path)),
        MountOp::TryRemoveDir { path } => format!("try rmdir {}", text(path)),
        MountOp::RemoveDir { path } => format!("rmdir {}", text(path)),
    };
    format!("{}: {}", step.stage.name(), what)
}

#[test]
fn steps_come_in_their_order() {
    let steps = plan(&vec![(b"/opt/py".to_vec(), b"//usr/py".to_vec())]);
    let got: Vec<String> = steps.iter().map(describe).collect();
    let root = "/tmp/sandbox-root-7";
    let stub = format!("{0}/tmp/.proc-mask-dir {0}/tmp/.proc-mask-file", root);
    let rprivate = MS_REC | MS_PRIVATE;
    let rbind = MS_BIND | MS_REC;
    let ro = MS_BIND | MS_REMOUNT | MS_RDONLY;
    let device_ro = ro | MS_NOSUID | MS_NOEXEC;
    let want = vec![
        format!("BreakPropagation: mount - / - {} -", rprivate),
        format!("BuildRootfs: mount tmpfs {} tmpfs {} mode=0755", root, MS_NOSUID | MS_NODEV),
        format!("BuildRootfs: mkdir {}/proc 755", root),
        format!("BuildRootfs: mkdir {}/tmp 755", root),
        format!("BuildRootfs: mkdir {}/dev 755", root),
        format!("BuildRootfs: mkdir {}/dev/pts 755", root),
        format!("BuildRootfs: mkdir {}/dev/shm 755", root),
        format!("BuildRootfs: mkdir {}/workspace 755", root),
        format!("BuildRootfs: mkdirs {}/usr/py", root),
        format!(
            "MountDevpts: mount devpts {}/dev/pts devpts {} newinstance,ptmxmode=0666,mode=0620",
            root,
            MS_NOSUID | MS_NOEXEC | MS_RDONLY
        ),
        format!("MountDevpts: touch {}/dev/null", root),
        format!("MountDevpts: mount /dev/null {}/dev/null - {} -", root, MS_BIND),
        format!("MountDevpts: mount /dev/null {}/dev/null - {} -", root, device_ro),
        format!("MountDevpts: touch {}/dev/zero", root),
        format!("MountDevpts: mount /dev/zero {}/dev/zero - {} -", root, MS_BIND),
        format!("MountDevpts: mount /dev/zero {}/dev/zero - {} -", root, device_ro),
        format!("MountDevpts: touch {}/dev/urandom", root),
        format!("MountDevpts: mount /dev/urandom {}/dev/urandom - {} -", root, MS_BIND),
        format!("MountDevpts: mount /dev/urandom {}/dev/urandom - {} -", root, device_ro),
        format!("MountWorkspace: mount /home/ws {}/workspace - {} -", root, rbind),
        format!("MountWorkspace: mount /opt/py {}/usr/py - {} -", root, rbind),
        format!(
            "MountWorkspace: mount /opt/py {}/usr/py - {} -",
            root,
            rbind | MS_REMOUNT | MS_RDONLY
        ),
        format!(
            "MountProc: mount proc {}/proc proc {} -",
            root,
            MS_NOSUID | MS_NODEV | MS_NOEXEC | MS_RDONLY
        ),
        format!("MaskProc: mkdirs {}/tmp/.proc-mask-dir", root),
        format!("MaskProc: touch {}/tmp/.proc-mask-file", root),
        format!("MaskProc: mask {}/proc/sys {}", root, stub),
        format!("MaskProc: mask {}/proc/sysrq-trigger {}", root, stub),
        format!("MaskProc: mask {}/proc/irq {}", root, stub),
        format!("MaskProc: mask {}/proc/acpi {}", root, stub),
        format!("PivotRoot: mkdir {}/.put_old 777", root),
        format!("PivotRoot: pivot {0} {0}/.put_old", root),
        "PivotRoot: cd /".to_string(),
        "PivotRoot: try rmdir /.put_old/tmp/sandbox-root-7".to_string(),
        "PivotRoot: detach /.put_old".to_string(),
        "PivotRoot: rmdir /.put_old".to_string(),
        format!("PivotRoot: mount - / - {} -", ro | MS_NOSUID | MS_NODEV),
    ];
    assert_eq!(got, want);
}

#[test]
fn each_extra_mount_takes_three_steps() {
    let none = plan(&vec![]).len();
    assert_eq!(none, 33);
    let two = plan(&vec![
        (b"/a".to_vec(), b"/a".to_vec()),
        (b"/b".to_vec(), b"/b".to_vec()),
    ]);
    assert_eq!(two.len(), none + 6);
}

#[test]
fn paths_that_are_no_text_are_replaced() {
    let steps = plan(&vec![(b"/a".to_vec(), vec![b'/', 0xff, b'b'])]);
    match &steps[8].op {
        MountOp::CreateDirAll { path } => {
            assert_eq!(text(path), "/tmp/sandbox-root-7/\u{fffd}b");
        }
        _ => panic!("another step"),
    }
}

#[test]
fn everything_after_the_first_step_is_mounted_below_the_scratch_directory() {
    let mounts = vec![(b"/a".to_vec(), b"/a".to_vec())];
    let steps = plan(&mounts);
    for step in &steps[1..steps.len() - 1] {
        if let MountOp::Mount { target, .. } = &step.op {
            assert!(target.starts_with(b"/tmp/sandbox-root-7"));
        }
    }
}

#[test]
fn paths_are_masked_by_their_own_kind() {
    let (t, d, f) = (b"/t".to_vec(), b"/d".to_vec(), b"/f".to_vec());
    assert!(mask_mount(t.clone(), d.clone(), f.clone(), false, false).is_empty());
    for (is_dir, stub) in [(true, &d), (false, &f)] {
        let ops = mask_mount(t.clone(), d.clone(), f.clone(), true, is_dir);
        assert_eq!(ops.len(), 2);
        let wanted =
            [MS_BIND | MS_RDONLY, MS_BIND | MS_REMOUNT | MS_RDONLY | MS_NOSUID | MS_NODEV];
        for (op, want) in ops.into_iter().zip(wanted) {
            match op {
                MountOp::Mount { source, target, fstype, flags, data } => {
                    assert_eq!(source.as_ref(), Some(stub));
                    assert_eq!(target, t);
                    assert!(fstype.is_none() && data.is_none());
                    assert_eq!(flags, want);
                }
                _ => panic!("no mount"),
            }
        }
    }
}

#[test]
fn nothing_but_the_workspace_is_left_writable() {
    let steps = plan(&vec![
        (b"/usr".to_vec(), b"/usr".to_vec()),
        (b"/lib".to_vec(), b"/lib".to_vec()),
    ]);
    let mut writable: Vec<String> = vec![];
    for step in &steps {
        if let MountOp::Mount { target, flags, .. } = &step.op {
            if flags & MS_PRIVATE != 0 {
                continue;
            }
            // By the last step the scratch directory is the root.
            let at = match text(target).as_str() {
                "/" => "/tmp/sandbox-root-7".to_string(),
                path => path.to_string(),
            };
            writable.retain(|path| *path != at);
            let plain_bind = flags & MS_BIND != 0 && flags & MS_REMOUNT == 0;
            if flags & MS_RDONLY == 0 || plain_bind {
                writable.push(at);
            }
        }
    }
    assert_eq!(writable, vec!["/tmp/sandbox-root-7/workspace".to_string()]);
}

#[test]
fn scratch_directories_are_numbered_by_the_clock() {
    assert_eq!(scratch_root_id(3, 5), 3_000_000_005);
    assert_eq!(scratch_root_id(-1, 0), 0u64.wrapping_sub(1_000_000_000));
    assert_eq!(
        scratch_root_id(i64::MAX, 1),
        (i64::MAX as u64).wrapping_mul(1_000_000_000).wrapping_add(1)
    );
    assert_eq!(scratch_root_path(12), b"/tmp/sandbox-root-12".to_vec());
}

#[test]
fn first_step_cuts_the_host_off() {
    assert_eq!(plan(&vec![])[0].stage, ChildStage::BreakPropagation);
}

#[test]
fn mount_flags_are_those_of_the_system() {
    assert_eq!(MS_RDONLY, libc::MS_RDONLY);
    assert_eq!(MS_NOSUID, libc::MS_NOSUID);
    assert_eq!(MS_NODEV, libc::MS_NODEV);
    assert_eq!(MS_NOEXEC, libc::MS_NOEXEC);
    assert_eq!(MS_REMOUNT, libc::MS_REMOUNT);
    assert_eq!(MS_BIND, libc::MS_BIND);
    assert_eq!(MS_REC, libc::MS_REC);
    assert_eq!(MS_PRIVATE, libc::MS_PRIVATE);
}
