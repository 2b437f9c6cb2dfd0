use brink::error::SandboxError;
use brink::report::TerminationReason;
use brink::status::{
    judge_exit, on_child_waited, status_file_name, status_path_of, status_record, ReapAction,
    Reaper, STATUS_POLLS,
};

#[test]
fn status_files_are_named_after_the_process() {
    for pid in [1, 7, 10, 4711, i32::MAX] {
        let (name, len) = status_file_name(pid);
        assert_eq!(&name[..len], format!("/tmp/sandbox-status-{}", pid).as_bytes());
        assert_eq!(name[len], 0);
        assert_eq!(status_path_of(pid), format!("/tmp/sandbox-status-{}", pid).into_bytes());
    }
    assert_eq!(status_path_of(-3), b"/tmp/sandbox-status--3".to_vec());
    assert_eq!(status_path_of(0), b"/tmp/sandbox-status-0".to_vec());
}

#[test]
fn status_records_are_lines() {
    for status in [0, 9, 256, -1, i32::MAX, -i32::MAX, 139] {
        let (record, len) = status_record(status);
        assert_eq!(&record[..len], format!("{}\n", status).as_bytes());
    }
}

#[test]
fn ended_children_are_written_down() {
    assert!(on_child_waited(0, 0).is_none());
    assert!(on_child_waited(-1, 5).is_none());
    let file = on_child_waited(42, 256).unwrap();
    assert_eq!(&file.name[..file.name_len], b"/tmp/sandbox-status-42");
    assert_eq!(file.name[file.name_len], 0);
    assert_eq!(&file.record[..file.record_len], b"256\n");
}

#[test]
fn exits_are_judged() {
    assert_eq!(judge_exit(0, 0, 7), (0, TerminationReason::Exited(0)));
    assert_eq!(judge_exit(3 << 8, 0, 7), (3, TerminationReason::Exited(3)));
    assert_eq!(judge_exit(255 << 8, 0, 7), (255, TerminationReason::Exited(255)));
    assert_eq!(judge_exit(9, 0, 7), (9, TerminationReason::SignalKilled(9)));
    assert_eq!(judge_exit(11 | 0x80, 0, 7), (11, TerminationReason::SignalKilled(11)));
    assert_eq!(judge_exit(9, 1, 7), (-1, TerminationReason::OomKilled));
    assert_eq!(judge_exit(0, 5, 7), (-1, TerminationReason::OomKilled));
}

#[test]
fn filter_kills_carry_the_system_call() {
    for nr in [libc::SYS_ptrace as u32, libc::SYS_kexec_load as u32, 0] {
        assert_eq!(
            judge_exit(libc::SIGSYS, 0, nr),
            (31, TerminationReason::SeccompViolation(nr))
        );
        assert_eq!(
            judge_exit(libc::SIGSYS | 0x80, 0, nr),
            (31, TerminationReason::SeccompViolation(nr))
        );
    }
}

#[test]
fn exits_are_judged_as_the_system_does() {
    for status in (0..0x1_0000).filter(|s| s & 0x7f != 0x7f) {
        let (code, reason) = judge_exit(status, 0, 1);
        if libc::WIFEXITED(status) {
            assert_eq!(code, libc::WEXITSTATUS(status));
            assert_eq!(reason, TerminationReason::Exited(code));
        } else {
            assert_eq!(code, libc::WTERMSIG(status));
        }
    }
}

#[test]
fn status_is_collected_in_the_end() {
    let (mut reaper, action) = Reaper::new();
    assert!(matches!(action, ReapAction::ReadStatus));
    assert!(matches!(reaper.on_status_file(None, 2), ReapAction::Sleep));
    assert!(matches!(reaper.on_wake(2), ReapAction::ReadStatus));
    assert!(matches!(reaper.on_status_file(Some("256\n"), 2), ReapAction::ReadMemoryEvents));
    match reaper.on_memory_events("oom_kill 0\n", 0) {
        ReapAction::Done(Ok(outcome)) => assert_eq!(outcome, (1, TerminationReason::Exited(1))),
        _ => panic!("no outcome"),
    }
    match reaper.on_memory_events("oom_kill 1\n", 0) {
        ReapAction::Done(Ok(outcome)) => assert_eq!(outcome, (-1, TerminationReason::OomKilled)),
        _ => panic!("no outcome"),
    }
}

#[test]
fn status_is_not_waited_for_for_ever() {
    let (mut reaper, _) = Reaper::new();
    let mut sleeps = 0;
    loop {
        assert!(reaper.misses < STATUS_POLLS);
        assert!(matches!(reaper.on_status_file(None, 2), ReapAction::Sleep));
        sleeps += 1;
        match reaper.on_wake(2) {
            ReapAction::ReadStatus => {}
            ReapAction::Done(Err(SandboxError::WaitFailed(errno))) => {
                assert_eq!(errno, 2);
                break;
            }
            _ => panic!("another action"),
        }
    }
    assert_eq!(sleeps, 100);
}

#[test]
fn status_that_is_no_number_is_an_error() {
    let (mut reaper, _) = Reaper::new();
    assert!(matches!(
        reaper.on_status_file(Some("?"), 4),
        ReapAction::Done(Err(SandboxError::WaitFailed(4)))
    ));
}

#[test]
fn reaper_names_the_blocked_system_call() {
    let (mut reaper, _) = Reaper::new();
    assert!(matches!(reaper.on_status_file(Some("31\n"), 2), ReapAction::ReadMemoryEvents));
    match reaper.on_memory_events("", 101) {
        ReapAction::Done(Ok(outcome)) => {
            assert_eq!(outcome, (31, TerminationReason::SeccompViolation(101)));
        }
        _ => panic!("no outcome"),
    }
}
