//! The terminal of a sandboxed process.
//!
//! Both ends are opened before the child is created, so that the child inherits
//! its end and need not find it by name in a `/dev/pts` of its own.
use vstd::prelude::*;

verus! {

pub const O_RDWR: i32 = 0o2;
pub const O_NOCTTY: i32 = 0o400;
pub const O_NONBLOCK: i32 = 0o4000;
pub const O_CLOEXEC: i32 = 0o2_000_000;

/// The master is read without blocking.
pub const MASTER_FLAGS: i32 = O_RDWR | O_NOCTTY | O_CLOEXEC | O_NONBLOCK;

pub const SLAVE_FLAGS: i32 = O_RDWR | O_NOCTTY | O_CLOEXEC;

/// A window size that is of use to programs that ask for it.
pub const WINDOW_COLUMNS: u16 = 220;
pub const WINDOW_ROWS: u16 = 50;

/// One step in opening a terminal.
#[derive(Clone, Copy, PartialEq, Eq, Structural, Debug)]
pub enum TerminalStep {
    /// Open a new master.
    OpenMaster { flags: i32 },
    /// Take hold of the slave.
    Grant,
    Unlock,
    /// Open the slave by the name that the master tells.
    OpenSlave { flags: i32 },
    SetWindowSize { columns: u16, rows: u16 },
}

/// The steps in opening a terminal, in their order.
pub open spec fn terminal_steps() -> Seq<TerminalStep> {
    seq![
        TerminalStep::OpenMaster { flags: MASTER_FLAGS },
        TerminalStep::Grant,
        TerminalStep::Unlock,
        TerminalStep::OpenSlave { flags: SLAVE_FLAGS },
        TerminalStep::SetWindowSize { columns: WINDOW_COLUMNS, rows: WINDOW_ROWS },
    ]
}

/// The steps in opening a terminal.
pub fn open_pty() -> (steps: Vec<TerminalStep>)
    ensures
        steps@ == terminal_steps(),
{
    let steps = vec![
        TerminalStep::OpenMaster { flags: MASTER_FLAGS },
        TerminalStep::Grant,
        TerminalStep::Unlock,
        TerminalStep::OpenSlave { flags: SLAVE_FLAGS },
        TerminalStep::SetWindowSize { columns: WINDOW_COLUMNS, rows: WINDOW_ROWS },
    ];
    assert(steps@ =~= terminal_steps());
    steps
}

/// Neither end survives `execve`, neither becomes the terminal that controls the
/// process that opens it, and the master alone does not block.
pub proof fn terminal_flags()
    ensures
        MASTER_FLAGS & O_CLOEXEC != 0,
        SLAVE_FLAGS & O_CLOEXEC != 0,
        MASTER_FLAGS & O_NOCTTY != 0,
        SLAVE_FLAGS & O_NOCTTY != 0,
        MASTER_FLAGS & O_NONBLOCK != 0,
        SLAVE_FLAGS & O_NONBLOCK == 0,
{
    assert((0o2i32 | 0o400i32 | 0o2_000_000i32 | 0o4000i32) & 0o2_000_000i32 != 0) by (bit_vector);
    assert((0o2i32 | 0o400i32 | 0o2_000_000i32) & 0o2_000_000i32 != 0) by (bit_vector);
    assert((0o2i32 | 0o400i32 | 0o2_000_000i32 | 0o4000i32) & 0o400i32 != 0) by (bit_vector);
    assert((0o2i32 | 0o400i32 | 0o2_000_000i32) & 0o400i32 != 0) by (bit_vector);
    assert((0o2i32 | 0o400i32 | 0o2_000_000i32 | 0o4000i32) & 0o4000i32 != 0) by (bit_vector);
    assert((0o2i32 | 0o400i32 | 0o2_000_000i32) & 0o4000i32 == 0) by (bit_vector);
}

/// A terminal is opened master first: for reading and writing, not as the controlling
/// terminal, not to survive `execve`, and without blocking (526594); then, once it is
/// granted and unlocked, its slave, which blocks (524546); it gets 220 columns and 50
/// rows.
pub proof fn terminals_are_opened_master_first()
    ensures
        terminal_steps() == seq![
            TerminalStep::OpenMaster { flags: 526_594 },
            TerminalStep::Grant,
            TerminalStep::Unlock,
            TerminalStep::OpenSlave { flags: 524_546 },
            TerminalStep::SetWindowSize { columns: 220, rows: 50 },
        ],
{
    assert(0o2i32 | 0o400i32 | 0o2_000_000i32 | 0o4000i32 == 526_594i32 && 0o2i32 | 0o400i32
        | 0o2_000_000i32 == 524_546i32) by (bit_vector);
}

} // verus!
