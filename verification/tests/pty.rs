use brink::pty::{open_pty, TerminalStep, MASTER_FLAGS, SLAVE_FLAGS};

#[test]
fn terminal_is_opened_step_by_step() {
    let steps = open_pty();
    assert_eq!(
        steps,
        vec![
            TerminalStep::OpenMaster { flags: MASTER_FLAGS },
            TerminalStep::Grant,
            TerminalStep::Unlock,
            TerminalStep::OpenSlave { flags: SLAVE_FLAGS },
            TerminalStep::SetWindowSize { columns: 220, rows: 50 },
        ]
    );
}

#[test]
fn terminal_flags_are_those_of_the_system() {
    assert_eq!(
        MASTER_FLAGS,
        libc::O_RDWR | libc::O_NOCTTY | libc::O_CLOEXEC | libc::O_NONBLOCK
    );
    assert_eq!(SLAVE_FLAGS, libc::O_RDWR | libc::O_NOCTTY | libc::O_CLOEXEC);
}
