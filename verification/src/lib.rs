//! A Linux process sandbox in six layers, from the outside to the inside:
//!
//! | Layer | Mechanism |
//! |---|---|
//! | Resource limits | cgroup v2: memory, processor time, number of processes |
//! | Identity | user namespace, in which the process is nobody |
//! | File system | mount namespace with a root of its own; only `/workspace` is mounted writable |
//! | Paths | Landlock rules |
//! | Privileges | no capabilities |
//! | System calls | a seccomp filter that denies by default |
//!
//! This library holds what the sandbox decides: which files are written with what,
//! which mounts are made in which order, what the system call filter answers, what
//! travels between the processes, how an exit is judged, and what follows upon
//! what. It does no input or output. Where a decision depends on the system, a
//! function takes what the system has said, and says what to do next.
//!
//! * `config`, `job`, `request`: what is to be run.
//! * `supervisor`, `collect`, `status`, `report`: a run from beginning to end.
//! * `fork_server`, `ipc`, `wire`: the process that creates children, and its
//!   messages.
//! * `namespace`, `pty`, `mount`, `landlock`, `seccomp`, `syscalls`: what a child does to
//!   itself before it becomes the program.
//! * `cgroup`: the limits, the figures and the killing of a run.
//! * `error`, `files`, `paths`, `text`: what all of them share.

pub mod cgroup;
pub mod collect;
pub mod config;
pub mod error;
pub mod files;
pub mod fork_server;
pub mod ipc;
pub mod job;
pub mod landlock;
pub mod mount;
pub mod namespace;
pub mod paths;
pub mod pty;
pub mod report;
pub mod request;
pub mod seccomp;
pub mod status;
pub mod supervisor;
pub mod syscalls;
pub mod text;
pub mod wire;

pub use config::{ResourceLimits, SandboxConfig};
pub use error::{ChildStage, SandboxError};
pub use report::{ExecutionReport, TerminationReason};
