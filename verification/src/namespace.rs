//! The namespaces of a sandboxed process, and what the child does between its
//! creation and `execve`.
//!
//! The child waits until its user mapping is written, then carries out the
//! steps of `child_setup` in order. The first step that fails and is not
//! harmless ends the setup; its stage and error number go back over a pipe.
use vstd::prelude::*;
use vstd::string::*;
use crate::error;
use crate::error::{ChildStage, SandboxError};
use crate::files;
use crate::files::{push_signed, push_str, FileWrite};
use crate::ipc;
use crate::ipc::{SpawnRequest, SpawnRequestView};
use crate::mount;
use crate::mount::{scratch_root_path, setup, MountContext, MountOp, MountStep};
use crate::paths::{bytes_of, copy, copy_list, copy_pairs};
use crate::text::push_decimal;
use crate::wire;

verus! {

// ---- Creating the child ----

pub const CLONE_PIDFD: u64 = 0x1000;
pub const CLONE_NEWNS: u64 = 0x2_0000;
pub const CLONE_NEWCGROUP: u64 = 0x200_0000;
pub const CLONE_NEWUTS: u64 = 0x400_0000;
pub const CLONE_NEWIPC: u64 = 0x800_0000;
pub const CLONE_NEWUSER: u64 = 0x1000_0000;
pub const CLONE_NEWPID: u64 = 0x2000_0000;
pub const CLONE_NEWNET: u64 = 0x4000_0000;

/// Everything that the child does not share with the host.
pub const CLONE_FLAGS: u64 = CLONE_NEWUSER | CLONE_NEWPID | CLONE_NEWNS | CLONE_NEWNET
    | CLONE_NEWUTS | CLONE_NEWIPC | CLONE_NEWCGROUP | CLONE_PIDFD;

/// A child that has been created, seen from its parent.
#[derive(Clone, Copy, PartialEq, Eq, Structural, Debug)]
pub struct CloneResult {
    pub child_pid: i32,
    /// A handle of the child that no other process can take over.
    pub pidfd: i32,
}

/// What the return value of `clone3` means: an error, the child's side, or the
/// parent's side with the process id and the handle of the child.
pub open spec fn cloned(ret: i64, pidfd: i32, errno: i32) -> Result<Option<CloneResult>, i32> {
    if ret < 0 {
        Err(errno)
    } else if ret == 0 {
        Ok::<Option<CloneResult>, i32>(None)
    } else {
        Ok(Some(CloneResult { child_pid: ret as i32, pidfd }))
    }
}

/// What the return value of `clone3` means.
pub fn clone_outcome(ret: i64, pidfd: i32, errno: i32) -> (outcome: Result<
    Option<CloneResult>,
    i32,
>)
    ensures
        outcome == cloned(ret, pidfd, errno),
{
    if ret < 0 {
        Err(errno)
    } else if ret == 0 {
        Ok(None)
    } else {
        Ok(Some(CloneResult { child_pid: ret as i32, pidfd }))
    }
}

// ---- User and group mapping ----

/// The path of a file of a process below `/proc`.
pub open spec fn proc_file(pid: int, name: Seq<u8>) -> Seq<u8> {
    "/proc/".spec_bytes() + files::signed_bytes(pid) + name
}

/// A mapping of nobody in the sandbox, and of no other user or group, to one of the
/// host.
pub open spec fn single_map(host_id: nat) -> Seq<u8> {
    "65534 ".spec_bytes() + files::number_bytes(host_id) + " 1\n".spec_bytes()
}

/// The three files that have to be written, in this order: without the first the
/// kernel does not take the last.
pub open spec fn id_map_writes(pid: int, uid: nat, gid: nat) -> Seq<FileWrite<Seq<u8>>> {
    seq![
        FileWrite {
            path: proc_file(pid, "/setgroups".spec_bytes()),
            content: "deny".spec_bytes(),
        },
        FileWrite { path: proc_file(pid, "/uid_map".spec_bytes()), content: single_map(uid) },
        FileWrite { path: proc_file(pid, "/gid_map".spec_bytes()), content: single_map(gid) },
    ]
}

/// What the writes of a list say.
pub open spec fn writes_view(writes: Seq<FileWrite<Vec<u8>>>) -> Seq<FileWrite<Seq<u8>>> {
    Seq::new(writes.len(), |i: int| writes[i]@)
}

fn proc_file_of(pid: i32, name: &str) -> (path: Vec<u8>)
    ensures
        path@ == proc_file(pid as int, name.spec_bytes()),
{
    let mut path = bytes_of("/proc/");
    push_signed(&mut path, pid);
    push_str(&mut path, name);
    path
}

fn single_map_of(host_id: u32) -> (content: Vec<u8>)
    ensures
        content@ == single_map(host_id as nat),
{
    let mut content = bytes_of("65534 ");
    push_decimal(&mut content, host_id as u64);
    push_str(&mut content, " 1\n");
    content
}

/// The writes that map the users and groups of a child.
pub fn write_uid_gid_maps(child_pid: i32, host_uid: u32, host_gid: u32) -> (writes: Vec<
    FileWrite<Vec<u8>>,
>)
    ensures
        writes_view(writes@) == id_map_writes(child_pid as int, host_uid as nat, host_gid as nat),
{
    let mut writes: Vec<FileWrite<Vec<u8>>> = Vec::new();
    writes.push(
        FileWrite { path: proc_file_of(child_pid, "/setgroups"), content: bytes_of("deny") },
    );
    writes.push(
        FileWrite { path: proc_file_of(child_pid, "/uid_map"), content: single_map_of(host_uid) },
    );
    writes.push(
        FileWrite { path: proc_file_of(child_pid, "/gid_map"), content: single_map_of(host_gid) },
    );
    assert(writes_view(writes@) =~= id_map_writes(
        child_pid as int,
        host_uid as nat,
        host_gid as nat,
    ));
    writes
}

/// How far the mapping of a child's user and group has come.
pub struct IdMapping {
    pub writes: Vec<FileWrite<Vec<u8>>>,
    /// The write that comes next.
    pub next: usize,
}

impl IdMapping {
    /// Nothing has been written yet.
    pub fn new(child_pid: i32, host_uid: u32, host_gid: u32) -> (mapping: Self)
        ensures
            writes_view(mapping.writes@) == id_map_writes(
                child_pid as int,
                host_uid as nat,
                host_gid as nat,
            ),
            mapping.writes@.len() == 3,
            mapping.next == 0,
    {
        let writes = write_uid_gid_maps(child_pid, host_uid, host_gid);
        assert(writes_view(writes@).len() == writes@.len());
        IdMapping { writes, next: 0 }
    }

    /// The write to make now; none if all have been made.
    pub fn pending(&self) -> (write: Option<FileWrite<Vec<u8>>>)
        ensures
            write is Some <==> self.next < self.writes@.len(),
            write matches Some(w) ==> w@ == self.writes@[self.next as int]@,
    {
        if self.next < self.writes.len() {
            let write = &self.writes[self.next];
            Some(FileWrite { path: copy(&write.path), content: copy(&write.content) })
        } else {
            None
        }
    }

    /// The pending write has been made, or has failed with an error number, after
    /// which nothing more is written.
    pub fn on_write(&mut self, done: Result<(), i32>) -> (outcome: Result<(), SandboxError>)
        requires
            old(self).next < old(self).writes@.len(),
        ensures
            final(self).writes == old(self).writes,
            match done {
                Ok(_) => outcome is Ok && final(self).next == old(self).next + 1,
                Err(errno) => outcome == Err::<(), SandboxError>(
                    SandboxError::UserNamespaceSetupFailed(errno),
                ) && final(self).next == old(self).next,
            },
    {
        let total: usize = self.writes.len();
        assert(self.next < total);
        match done {
            Ok(_) => {
                self.next = self.next + 1;
                Ok(())
            },
            Err(errno) => Err(SandboxError::UserNamespaceSetupFailed(errno)),
        }
    }
}

// ---- Setting up the child ----

pub const SIGKILL: i32 = 9;

pub const SECBIT_KEEP_CAPS_LOCKED: u64 = 2;
pub const SECBIT_NOROOT: u64 = 4;
pub const SECBIT_NOROOT_LOCKED: u64 = 8;
pub const SECBIT_NO_SETUID_FIXUP: u64 = 16;
pub const SECBIT_NO_SETUID_FIXUP_LOCKED: u64 = 32;

/// With these no program that the child starts gains a capability.
pub const SECURE_BITS: u64 = SECBIT_NOROOT | SECBIT_NOROOT_LOCKED | SECBIT_NO_SETUID_FIXUP
    | SECBIT_NO_SETUID_FIXUP_LOCKED | SECBIT_KEEP_CAPS_LOCKED;

/// A limit of a process.
#[derive(Clone, Copy, PartialEq, Eq, Structural, Debug)]
pub enum Limit {
    OpenFiles,
    FileSize,
    StackSize,
}

/// One step of the child's setup.
pub enum ChildOp {
    /// Read eight bytes from the eventfd, which is when the mapping is written.
    AwaitMapping { fd: i32 },
    /// Be sent a signal when the fork server dies.
    SetParentDeathSignal { signal: i32 },
    /// Make the scratch directory.
    CreateScratchRoot { path: Vec<u8>, mode: u32 },
    /// Work on the file system.
    Mount(MountOp<Vec<u8>>),
    /// Put the Landlock rules for the workspace and the extra mounts in force.
    ApplyLandlock { workspace: Vec<u8>, extra_ro: Vec<(Vec<u8>, Vec<u8>)> },
    /// Set a limit, soft and hard.
    SetLimit { limit: Limit, value: u64 },
    SetSecureBits { bits: u64 },
    /// Drop every capability.
    ClearCapabilities,
    /// Make a descriptor a copy of another.
    Duplicate { from: i32, to: i32 },
    Close { fd: i32 },
    /// Never gain privileges again.
    SetNoNewPrivs,
    /// Keep other processes from looking into the memory.
    ClearDumpable,
    /// Load the system call filter.
    LoadFilter,
    /// Become a program, with these arguments and this environment and no other.
    Exec { program: Vec<u8>, argv: Vec<Vec<u8>>, env: Vec<Vec<u8>> },
}

/// What a `ChildOp` says.
pub enum ChildOpView {
    AwaitMapping { fd: i32 },
    SetParentDeathSignal { signal: i32 },
    CreateScratchRoot { path: Seq<u8>, mode: u32 },
    Mount(MountOp<Seq<u8>>),
    ApplyLandlock { workspace: Seq<u8>, extra_ro: Seq<(Seq<u8>, Seq<u8>)> },
    SetLimit { limit: Limit, value: u64 },
    SetSecureBits { bits: u64 },
    ClearCapabilities,
    Duplicate { from: i32, to: i32 },
    Close { fd: i32 },
    SetNoNewPrivs,
    ClearDumpable,
    LoadFilter,
    Exec { program: Seq<u8>, argv: Seq<Seq<u8>>, env: Seq<Seq<u8>> },
}

/// A step, and the stage that is reported if it fails; without a stage a failure
/// is of no consequence.
pub struct ChildStep {
    pub op: ChildOp,
    pub on_failure: Option<ChildStage>,
}

/// What a `ChildStep` says.
pub struct ChildStepView {
    pub op: ChildOpView,
    pub on_failure: Option<ChildStage>,
}

impl View for ChildOp {
    type V = ChildOpView;

    open spec fn view(&self) -> ChildOpView {
        match *self {
            ChildOp::AwaitMapping { fd } => ChildOpView::AwaitMapping { fd },
            ChildOp::SetParentDeathSignal { signal } => ChildOpView::SetParentDeathSignal {
                signal,
            },
            ChildOp::CreateScratchRoot { path, mode } => ChildOpView::CreateScratchRoot {
                path: path@,
                mode,
            },
            ChildOp::Mount(op) => ChildOpView::Mount(op@),
            ChildOp::ApplyLandlock { workspace, extra_ro } => ChildOpView::ApplyLandlock {
                workspace: workspace@,
                extra_ro: wire::pair_views(extra_ro@),
            },
            ChildOp::SetLimit { limit, value } => ChildOpView::SetLimit { limit, value },
            ChildOp::SetSecureBits { bits } => ChildOpView::SetSecureBits { bits },
            ChildOp::ClearCapabilities => ChildOpView::ClearCapabilities,
            ChildOp::Duplicate { from, to } => ChildOpView::Duplicate { from, to },
            ChildOp::Close { fd } => ChildOpView::Close { fd },
            ChildOp::SetNoNewPrivs => ChildOpView::SetNoNewPrivs,
            ChildOp::ClearDumpable => ChildOpView::ClearDumpable,
            ChildOp::LoadFilter => ChildOpView::LoadFilter,
            ChildOp::Exec { program, argv, env } => ChildOpView::Exec {
                program: program@,
                argv: wire::views(argv@),
                env: wire::views(env@),
            },
        }
    }
}

impl View for ChildStep {
    type V = ChildStepView;

    open spec fn view(&self) -> ChildStepView {
        ChildStepView { op: self.op@, on_failure: self.on_failure }
    }
}

/// What the steps of a list say.
pub open spec fn steps_view(steps: Seq<ChildStep>) -> Seq<ChildStepView> {
    Seq::new(steps.len(), |i: int| steps[i]@)
}

/// The descriptors that the child inherits.
#[derive(Clone, Copy, PartialEq, Eq, Structural, Debug)]
pub struct ChildFds {
    /// The eventfd that tells of the mapping.
    pub sync_read_fd: i32,
    /// The child's end of the terminal.
    pub slave_fd: i32,
    /// Where standard error goes.
    pub stderr_write_fd: i32,
}

pub open spec fn child_step(
    op: ChildOpView,
    on_failure: Option<ChildStage>,
) -> ChildStepView {
    ChildStepView { op, on_failure }
}

/// What comes before the file system.
pub open spec fn early_steps(fds: ChildFds, scratch_id: u64) -> Seq<ChildStepView> {
    seq![
        child_step(
            ChildOpView::AwaitMapping { fd: fds.sync_read_fd },
            Some(ChildStage::WaitForMapping),
        ),
        child_step(ChildOpView::SetParentDeathSignal { signal: SIGKILL }, None),
        child_step(
            ChildOpView::CreateScratchRoot { path: mount::scratch_root(scratch_id), mode: 0o700 },
            Some(ChildStage::BuildRootfs),
        ),
    ]
}

/// A file system step as a step of the child.
pub open spec fn as_child_step(step: MountStep<Seq<u8>>) -> ChildStepView {
    ChildStepView {
        op: ChildOpView::Mount(step.op),
        on_failure: if step.op is TryRemoveDir {
            None
        } else {
            Some(step.stage)
        },
    }
}

/// The file system steps as steps of the child.
pub open spec fn file_system_steps(steps: Seq<MountStep<Seq<u8>>>) -> Seq<ChildStepView> {
    Seq::new(steps.len(), |i: int| as_child_step(steps[i]))
}

/// The limits of the process itself.
pub open spec fn limit_steps(req: SpawnRequestView) -> Seq<ChildStepView> {
    seq![
        child_step(
            ChildOpView::SetLimit { limit: Limit::OpenFiles, value: req.max_open_files },
            Some(ChildStage::Exec),
        ),
        child_step(
            ChildOpView::SetLimit { limit: Limit::FileSize, value: req.max_file_size_bytes },
            Some(ChildStage::Exec),
        ),
        child_step(
            ChildOpView::SetLimit { limit: Limit::StackSize, value: req.stack_size_bytes },
            Some(ChildStage::Exec),
        ),
    ]
}

/// No capability is left, and none comes back.
pub open spec fn capability_steps() -> Seq<ChildStepView> {
    seq![
        child_step(
            ChildOpView::SetSecureBits { bits: SECURE_BITS },
            Some(ChildStage::CapabilityDrop),
        ),
        child_step(ChildOpView::ClearCapabilities, Some(ChildStage::CapabilityDrop)),
    ]
}

/// Input and output; then the last restrictions, and the program itself.
pub open spec fn late_steps(req: SpawnRequestView, fds: ChildFds) -> Seq<ChildStepView> {
    seq![
        child_step(
            ChildOpView::Duplicate { from: fds.slave_fd, to: 0 },
            Some(ChildStage::PtySlaveSetup),
        ),
        child_step(
            ChildOpView::Duplicate { from: fds.slave_fd, to: 1 },
            Some(ChildStage::PtySlaveSetup),
        ),
        child_step(
            ChildOpView::Duplicate { from: fds.stderr_write_fd, to: 2 },
            Some(ChildStage::PtySlaveSetup),
        ),
        child_step(ChildOpView::Close { fd: fds.slave_fd }, None),
        child_step(ChildOpView::Close { fd: fds.stderr_write_fd }, None),
        child_step(ChildOpView::Close { fd: fds.sync_read_fd }, None),
        child_step(ChildOpView::SetNoNewPrivs, Some(ChildStage::NoNewPrivs)),
        child_step(ChildOpView::ClearDumpable, None),
        child_step(ChildOpView::LoadFilter, Some(ChildStage::Seccomp)),
        child_step(
            ChildOpView::Exec { program: req.argv[0], argv: req.argv, env: req.env },
            Some(ChildStage::Exec),
        ),
    ]
}

/// What comes after the file system.
pub open spec fn later_steps(req: SpawnRequestView, fds: ChildFds) -> Seq<ChildStepView> {
    seq![
        child_step(
            ChildOpView::ApplyLandlock {
                workspace: "/workspace".spec_bytes(),
                extra_ro: req.extra_ro_mounts,
            },
            Some(ChildStage::Landlock),
        ),
    ] + limit_steps(req) + capability_steps() + late_steps(req, fds)
}

/// All steps of the child, in their order.
pub open spec fn child_steps(
    req: SpawnRequestView,
    fds: ChildFds,
    scratch_id: u64,
) -> Seq<ChildStepView> {
    early_steps(fds, scratch_id) + file_system_steps(
        mount::setup_steps(scratch_id, req.workspace_path, req.extra_ro_mounts),
    ) + later_steps(req, fds)
}

fn push_step(steps: &mut Vec<ChildStep>, op: ChildOp, on_failure: Option<ChildStage>)
    ensures
        steps_view(final(steps)@) == steps_view(old(steps)@).push(child_step(op@, on_failure)),
{
    let ghost before = steps@;
    steps.push(ChildStep { op, on_failure });
    assert(steps_view(steps@) =~= steps_view(before).push(child_step(op@, on_failure)));
}

/// Appends the limits of the process itself.
fn apply_rlimits(steps: &mut Vec<ChildStep>, req: &SpawnRequest)
    ensures
        steps_view(final(steps)@) == steps_view(old(steps)@) + limit_steps(req@),
{
    let ghost before = steps_view(steps@);
    let stage = Some(ChildStage::Exec);
    push_step(
        steps,
        ChildOp::SetLimit { limit: Limit::OpenFiles, value: req.max_open_files },
        stage,
    );
    push_step(
        steps,
        ChildOp::SetLimit { limit: Limit::FileSize, value: req.max_file_size_bytes },
        stage,
    );
    push_step(
        steps,
        ChildOp::SetLimit { limit: Limit::StackSize, value: req.stack_size_bytes },
        stage,
    );
    assert(steps_view(steps@) =~= before + limit_steps(req@));
}

/// Appends the dropping of all capabilities.
fn drop_capabilities(steps: &mut Vec<ChildStep>)
    ensures
        steps_view(final(steps)@) == steps_view(old(steps)@) + capability_steps(),
{
    let ghost before = steps_view(steps@);
    let stage = Some(ChildStage::CapabilityDrop);
    push_step(steps, ChildOp::SetSecureBits { bits: SECURE_BITS }, stage);
    push_step(steps, ChildOp::ClearCapabilities, stage);
    assert(steps_view(steps@) =~= before + capability_steps());
}

/// Appends the file system steps.
fn push_file_system(steps: &mut Vec<ChildStep>, mounts: Vec<MountStep<Vec<u8>>>)
    ensures
        steps_view(final(steps)@) == steps_view(old(steps)@) + file_system_steps(
            mount::steps_view(mounts@),
        ),
{
    let ghost before = steps_view(steps@);
    let ghost all = mount::steps_view(mounts@);
    let mut rest = mounts;
    let mut done: Vec<ChildStep> = Vec::new();
    // Taken from the end, so that each step is moved and none is copied.
    while rest.len() > 0
        invariant
            rest@.len() <= all.len(),
            mount::steps_view(rest@) == all.take(rest@.len() as int),
            done@.len() == all.len() - rest@.len(),
            forall|i: int|
                0 <= i < done@.len() ==> (#[trigger] done@[i])@ == as_child_step(
                    all[all.len() - 1 - i],
                ),
        decreases rest@.len(),
    {
        let ghost n = rest@.len();
        let ghost last = rest@[n - 1];
        proof {
            assert(mount::steps_view(rest@)[n - 1] == last@);
            assert(all.take(n as int)[n - 1] == all[n - 1]);
        }
        match rest.pop() {
            Some(step) => {
                let MountStep { op, stage } = step;
                let on_failure = match &op {
                    MountOp::TryRemoveDir { path: _ } => None,
                    _ => Some(stage),
                };
                done.push(ChildStep { op: ChildOp::Mount(op), on_failure });
            },
            None => {},
        }
        assert(mount::steps_view(rest@) =~= all.take(rest@.len() as int));
    }
    let ghost mapped = file_system_steps(all);
    let ghost total = done@.len();
    assert(steps_view(steps@) =~= before + mapped.take(0));
    while done.len() > 0
        invariant
            done@.len() <= total,
            total == all.len(),
            mapped == file_system_steps(all),
            forall|i: int|
                0 <= i < done@.len() ==> (#[trigger] done@[i])@ == as_child_step(
                    all[all.len() - 1 - i],
                ),
            steps_view(steps@) == before + mapped.take(total - done@.len()),
        decreases done@.len(),
    {
        let ghost n = done@.len();
        let ghost prior = steps@;
        assert(done@[n - 1]@ == mapped[total - n]);
        match done.pop() {
            Some(step) => {
                steps.push(step);
                assert(steps_view(steps@) =~= steps_view(prior).push(step@));
            },
            None => {},
        }
        assert(mapped.take(total - n + 1) =~= mapped.take(total - n).push(mapped[total - n]));
        assert(steps_view(steps@) =~= before + mapped.take(total - n + 1));
    }
    assert(mapped.take(total as int) =~= mapped);
}

fn push_early(steps: &mut Vec<ChildStep>, fds: ChildFds, scratch_id: u64)
    ensures
        steps_view(final(steps)@) == steps_view(old(steps)@) + early_steps(fds, scratch_id),
{
    let ghost before = steps_view(steps@);
    push_step(
        steps,
        ChildOp::AwaitMapping { fd: fds.sync_read_fd },
        Some(ChildStage::WaitForMapping),
    );
    push_step(steps, ChildOp::SetParentDeathSignal { signal: SIGKILL }, None);
    push_step(
        steps,
        ChildOp::CreateScratchRoot { path: scratch_root_path(scratch_id), mode: 0o700 },
        Some(ChildStage::BuildRootfs),
    );
    assert(steps_view(steps@) =~= before + early_steps(fds, scratch_id));
}

proof fn lemma_append_in_turn<T>(start: Seq<T>, x: T, a: Seq<T>, b: Seq<T>, c: Seq<T>)
    ensures
        start.push(x) + a + b + c == start + (seq![x] + a + b + c),
{
    assert(start.push(x) + a + b + c =~= start + (seq![x] + a + b + c));
}

fn push_later(steps: &mut Vec<ChildStep>, req: &SpawnRequest, fds: ChildFds)
    requires
        req.argv@.len() > 0,
    ensures
        steps_view(final(steps)@) == steps_view(old(steps)@) + later_steps(req@, fds),
{
    proof {
        lemma_append_in_turn(
            steps_view(steps@),
            child_step(
                ChildOpView::ApplyLandlock {
                    workspace: "/workspace".spec_bytes(),
                    extra_ro: req@.extra_ro_mounts,
                },
                Some(ChildStage::Landlock),
            ),
            limit_steps(req@),
            capability_steps(),
            late_steps(req@, fds),
        );
    }
    push_step(
        steps,
        ChildOp::ApplyLandlock {
            workspace: bytes_of("/workspace"),
            extra_ro: copy_pairs(&req.extra_ro_mounts),
        },
        Some(ChildStage::Landlock),
    );
    apply_rlimits(steps, req);
    drop_capabilities(steps);
    push_late(steps, req, fds);
}

/// The steps that the child takes, in their order.
pub fn child_setup(req: &SpawnRequest, fds: ChildFds, scratch_id: u64) -> (steps: Vec<
    ChildStep,
>)
    requires
        req.argv@.len() > 0,
    ensures
        steps_view(steps@) == child_steps(req@, fds, scratch_id),
{
    let mut steps: Vec<ChildStep> = Vec::new();
    let ghost none = steps_view(steps@);
    push_early(&mut steps, fds, scratch_id);
    assert(none + early_steps(fds, scratch_id) =~= early_steps(fds, scratch_id));
    let mounts = setup(
        &MountContext {
            workspace_path: &req.workspace_path,
            extra_ro_mounts: &req.extra_ro_mounts,
            scratch_id,
        },
    );
    push_file_system(&mut steps, mounts);
    push_later(&mut steps, req, fds);
    steps
}

/// What the child becomes: the first argument names the program, which gets the
/// arguments and the environment of the request and nothing of the fork server's.
fn exec_target(req: &SpawnRequest) -> (op: ChildOp)
    requires
        req.argv@.len() > 0,
    ensures
        op@ == (ChildOpView::Exec { program: req@.argv[0], argv: req@.argv, env: req@.env }),
{
    let program = copy(&req.argv[0]);
    assert(program@ == req@.argv[0]);
    ChildOp::Exec { program, argv: copy_list(&req.argv), env: copy_list(&req.env) }
}

fn push_late(steps: &mut Vec<ChildStep>, req: &SpawnRequest, fds: ChildFds)
    requires
        req.argv@.len() > 0,
    ensures
        steps_view(final(steps)@) == steps_view(old(steps)@) + late_steps(req@, fds),
{
    let ghost before = steps_view(steps@);
    let pty = Some(ChildStage::PtySlaveSetup);
    push_step(steps, ChildOp::Duplicate { from: fds.slave_fd, to: 0 }, pty);
    push_step(steps, ChildOp::Duplicate { from: fds.slave_fd, to: 1 }, pty);
    push_step(steps, ChildOp::Duplicate { from: fds.stderr_write_fd, to: 2 }, pty);
    push_step(steps, ChildOp::Close { fd: fds.slave_fd }, None);
    push_step(steps, ChildOp::Close { fd: fds.stderr_write_fd }, None);
    push_step(steps, ChildOp::Close { fd: fds.sync_read_fd }, None);
    push_step(steps, ChildOp::SetNoNewPrivs, Some(ChildStage::NoNewPrivs));
    push_step(steps, ChildOp::ClearDumpable, None);
    push_step(steps, ChildOp::LoadFilter, Some(ChildStage::Seccomp));
    push_step(steps, exec_target(req), Some(ChildStage::Exec));
    assert(steps_view(steps@) =~= before + late_steps(req@, fds));
}

// ---- Carrying out the setup ----

/// What a step that went well (`None`) or failed with an error number leads to:
/// the next step, or the end of the setup.
pub open spec fn step_outcome(
    on_failure: Option<ChildStage>,
    failure: Option<i32>,
) -> Result<(), (ChildStage, i32)> {
    match (on_failure, failure) {
        (Some(stage), Some(errno)) => Err((stage, errno)),
        _ => Ok(()),
    }
}

/// The step that comes after another one: the next, unless the setup has ended.
pub open spec fn moved_on(next: int, outcome: Result<(), (ChildStage, i32)>) -> int {
    if outcome is Ok {
        next + 1
    } else {
        next
    }
}

/// How far the child has come with its setup.
pub struct ChildRun {
    pub steps: Vec<ChildStep>,
    /// The step that comes next.
    pub next: usize,
}

impl ChildRun {
    /// The child has not done anything yet.
    pub fn new(req: &SpawnRequest, fds: ChildFds, scratch_id: u64) -> (run: Self)
        requires
            req.argv@.len() > 0,
        ensures
            steps_view(run.steps@) == child_steps(req@, fds, scratch_id),
            run.next == 0,
    {
        ChildRun { steps: child_setup(req, fds, scratch_id), next: 0 }
    }

    /// The step to carry out now, if there is one.
    pub fn pending(&self) -> (step: Option<&ChildStep>)
        ensures
            step == if self.next < self.steps@.len() {
                Some(&self.steps@[self.next as int])
            } else {
                None
            },
    {
        if self.next < self.steps.len() {
            Some(&self.steps[self.next])
        } else {
            None
        }
    }

    /// The pending step has been carried out. Goes on to the next one, or says with
    /// which stage and error number the setup ends.
    pub fn on_step(&mut self, failure: Option<i32>) -> (outcome: Result<(), (ChildStage, i32)>)
        requires
            old(self).next < old(self).steps@.len(),
        ensures
            final(self).steps == old(self).steps,
            outcome == step_outcome(old(self).steps@[old(self).next as int].on_failure, failure),
            final(self).next == moved_on(old(self).next as int, outcome),
    {
        let total: usize = self.steps.len();
        assert(self.next < total);
        match (self.steps[self.next].on_failure, failure) {
            (Some(stage), Some(errno)) => Err((stage, errno)),
            _ => {
                self.next = self.next + 1;
                Ok(())
            },
        }
    }
}

/// What comes of the first steps of a list, given how each of them went: how many
/// were carried out, or the end of the setup.
pub open spec fn carried_out(
    steps: Seq<ChildStepView>,
    failures: Seq<Option<i32>>,
) -> Result<nat, (ChildStage, i32)>
    decreases failures.len(),
{
    if failures.len() == 0 {
        Ok(0)
    } else {
        match carried_out(steps, failures.drop_last()) {
            Err(end) => Err(end),
            Ok(n) => match step_outcome(steps[n as int].on_failure, failures.last()) {
                Err(end) => Err(end),
                Ok(_) => Ok(n + 1),
            },
        }
    }
}

/// Whoever gets as far as step `n` has carried out every step before it, and
/// failed at none of those that matter.
pub proof fn no_step_is_skipped(
    steps: Seq<ChildStepView>,
    failures: Seq<Option<i32>>,
    n: nat,
    i: int,
)
    requires
        carried_out(steps, failures) == Ok::<nat, (ChildStage, i32)>(n),
        0 <= i < n,
    ensures
        n == failures.len(),
        steps[i].on_failure is Some ==> failures[i] is None,
    decreases failures.len(),
{
    let init = failures.drop_last();
    if failures.len() > 0 {
        lemma_carried_out_count(steps, init);
        if i < n - 1 {
            no_step_is_skipped(steps, init, (n - 1) as nat, i);
            assert(init[i] == failures[i]);
        } else {
            assert(failures.last() == failures[i]);
        }
    }
}

proof fn lemma_carried_out_count(steps: Seq<ChildStepView>, failures: Seq<Option<i32>>)
    ensures
        carried_out(steps, failures) matches Ok(n) ==> n == failures.len(),
    decreases failures.len(),
{
    if failures.len() > 0 {
        lemma_carried_out_count(steps, failures.drop_last());
    }
}

/// One of the child's steps stands in one of the three parts of the setup.
proof fn lemma_parts(req: SpawnRequestView, fds: ChildFds, scratch_id: u64, i: int)
    requires
        0 <= i < child_steps(req, fds, scratch_id).len(),
    ensures
        ({
            let mounts = mount::setup_steps(scratch_id, req.workspace_path, req.extra_ro_mounts);
            let steps = child_steps(req, fds, scratch_id);
            &&& steps.len() == 3 + mounts.len() + 16
            &&& i < 3 ==> steps[i] == early_steps(fds, scratch_id)[i]
            &&& 3 <= i < 3 + mounts.len() ==> steps[i] == as_child_step(mounts[i - 3])
            &&& 3 + mounts.len() <= i ==> steps[i] == later_steps(req, fds)[i - 3 - mounts.len()]
        }),
{
}

/// What stands at which distance from the end of the child's steps. The program
/// is started last; before that come, in this order, the file system, the
/// Landlock rules, the dropping of the capabilities, the pledge to gain no
/// privileges and the system call filter.
pub proof fn restrictions_come_before_the_program(
    req: SpawnRequestView,
    fds: ChildFds,
    scratch_id: u64,
    i: int,
)
    requires
        0 <= i < child_steps(req, fds, scratch_id).len(),
    ensures
        ({
            let steps = child_steps(req, fds, scratch_id);
            let len = steps.len();
            let op = steps[i].op;
            &&& len > 16
            &&& op is AwaitMapping <==> i == 0
            &&& op is Mount ==> i < len - 16
            &&& op is ApplyLandlock <==> i == len - 16
            &&& op is ClearCapabilities <==> i == len - 11
            &&& op is SetNoNewPrivs <==> i == len - 4
            &&& op is LoadFilter <==> i == len - 2
            &&& op is Exec <==> i == len - 1
        }),
{
    lemma_parts(req, fds, scratch_id, i);
}

/// The program that is started gets the arguments and the environment of the
/// request, and nothing else.
pub proof fn program_gets_what_was_asked_for(
    req: SpawnRequestView,
    fds: ChildFds,
    scratch_id: u64,
)
    ensures
        child_steps(req, fds, scratch_id).len() > 0,
        child_steps(req, fds, scratch_id).last().op == (ChildOpView::Exec {
            program: req.argv[0],
            argv: req.argv,
            env: req.env,
        }),
{
    let steps = child_steps(req, fds, scratch_id);
    assert(steps.len() >= 16);
    lemma_parts(req, fds, scratch_id, steps.len() - 1);
}

/// A step whose failure is of no consequence.
pub open spec fn harmless(op: ChildOpView) -> bool {
    match op {
        ChildOpView::SetParentDeathSignal { signal } => true,
        ChildOpView::Close { fd } => true,
        ChildOpView::ClearDumpable => true,
        ChildOpView::Mount(op) => op is TryRemoveDir,
        _ => false,
    }
}

/// A program that is started has every restriction behind it: where the child
/// gets as far as its last step, nothing but a harmless step has failed.
pub proof fn program_starts_fully_restricted(
    req: SpawnRequestView,
    fds: ChildFds,
    scratch_id: u64,
    failures: Seq<Option<i32>>,
    i: int,
)
    requires
        carried_out(child_steps(req, fds, scratch_id), failures) == Ok::<nat, (ChildStage, i32)>(
            (child_steps(req, fds, scratch_id).len() - 1) as nat,
        ),
        0 <= i < child_steps(req, fds, scratch_id).len() - 1,
    ensures
        failures.len() == child_steps(req, fds, scratch_id).len() - 1,
        failures[i] is Some ==> harmless(child_steps(req, fds, scratch_id)[i].op),
{
    let steps = child_steps(req, fds, scratch_id);
    no_step_is_skipped(steps, failures, (steps.len() - 1) as nat, i);
    lemma_parts(req, fds, scratch_id, i);
}

/// Standard input and output of the program are the terminal, and its standard
/// error is the pipe: nothing else becomes one of the three descriptors.
pub proof fn streams_are_kept_apart(
    req: SpawnRequestView,
    fds: ChildFds,
    scratch_id: u64,
    i: int,
)
    requires
        0 <= i < child_steps(req, fds, scratch_id).len(),
    ensures
        child_steps(req, fds, scratch_id)[i].op matches ChildOpView::Duplicate { from, to } ==> {
            ||| to == 0 && from == fds.slave_fd
            ||| to == 1 && from == fds.slave_fd
            ||| to == 2 && from == fds.stderr_write_fd
        },
{
    lemma_parts(req, fds, scratch_id, i);
}

// ---- Reporting a failure ----

/// How many bytes a failure takes on the pipe.
pub const FAILURE_LEN: usize = 5;

/// A stage and an error number on the pipe.
pub open spec fn failure_record(stage: ChildStage, errno: i32) -> Seq<u8> {
    ipc::tagged(stage.code(), errno)
}

/// What the child writes to the pipe when its setup ends early.
pub fn report_child_error(stage: ChildStage, errno: i32) -> (record: Vec<u8>)
    ensures
        record@ == failure_record(stage, errno),
        record@.len() == FAILURE_LEN,
{
    let mut record: Vec<u8> = Vec::new();
    record.push(stage.to_u8());
    wire::push_u32(&mut record, errno as u32);
    proof {
        wire::lemma_le_len(errno as u32 as nat, 4);
    }
    assert(record@ =~= failure_record(stage, errno));
    record
}

/// What the other end of the pipe makes of `n` bytes in a buffer that was all
/// zeros. No bytes mean that the program has started; a stage that nobody knows
/// counts as a failure to start it.
pub open spec fn failure_in(n: int, record: Seq<u8>) -> Option<(ChildStage, i32)> {
    if n > 0 {
        Some((stage_of(record[0]), ipc::signed_value(record.subrange(1, 5))))
    } else {
        None
    }
}

/// The stage that a code stands for, or `Exec`.
pub open spec fn stage_of(code: u8) -> ChildStage {
    if exists|stage: ChildStage| #[trigger] stage.code() == code {
        choose|stage: ChildStage| #[trigger] stage.code() == code
    } else {
        ChildStage::Exec
    }
}

/// Reads what the child has written to the pipe: `n` is what `read` returned.
pub fn child_failure(n: i64, record: &[u8; 5]) -> (failure: Option<(ChildStage, i32)>)
    ensures
        failure == failure_in(n as int, record@),
{
    if n <= 0 {
        return None;
    }
    let stage = match ChildStage::from_u8(record[0]) {
        Some(stage) => {
            assert(stage.code() == record@[0]);
            proof {
                error::stage_codes_differ(stage, stage_of(record@[0]));
            }
            stage
        },
        None => {
            assert forall|stage: ChildStage| #[trigger] stage.code() != record@[0] by {
                error::stage_codes_differ(stage, stage);
            }
            ChildStage::Exec
        },
    };
    let mut p: usize = 1;
    match wire::pull_u32(record.as_slice(), &mut p) {
        Some(v) => Some((stage, v as i32)),
        None => None,
    }
}

/// The other end of the pipe learns of the failure that the child has met.
pub proof fn failure_reads_back(stage: ChildStage, errno: i32)
    ensures
        failure_record(stage, errno).len() == FAILURE_LEN,
        failure_in(FAILURE_LEN as int, failure_record(stage, errno)) == Some((stage, errno)),
{
    ipc::signed_value_of_encoding(errno);
    let record = failure_record(stage, errno);
    assert(record.subrange(1, 5) =~= wire::le(errno as u32 as nat, 4));
    assert(stage.code() == record[0]);
    error::stage_codes_differ(stage, stage_of(record[0]));
}

// ---- Laws ----

/// The child has a user, process, mount, network, host name, message and cgroup
/// namespace of its own, and comes with a handle: bits 28, 29, 17, 30, 26, 27, 25 and
/// 12, and no others.
pub proof fn everything_is_unshared()
    ensures
        CLONE_FLAGS == 0x1000_0000 + 0x2000_0000 + 0x2_0000 + 0x4000_0000 + 0x400_0000 + 0x800_0000
            + 0x200_0000 + 0x1000,
        SECURE_BITS == 2 + 4 + 8 + 16 + 32,
{
    assert(0x1000_0000u64 | 0x2000_0000u64 | 0x2_0000u64 | 0x4000_0000u64 | 0x400_0000u64
        | 0x800_0000u64 | 0x200_0000u64 | 0x1000u64 == 0x7e02_1000u64) by (bit_vector);
    assert(4u64 | 8u64 | 16u64 | 32u64 | 2u64 == 62u64) by (bit_vector);
}

/// A negative return value is an error, whose number is handed on; zero is the child;
/// any other is its number in the parent, which holds its handle.
pub proof fn clones_are_told_apart(ret: i64, pidfd: i32, errno: i32)
    ensures
        ret < 0 ==> cloned(ret, pidfd, errno) == Err::<Option<CloneResult>, i32>(errno),
        ret == 0 ==> (cloned(ret, pidfd, errno) matches Ok(None)),
        0 < ret <= i32::MAX ==> {
            &&& cloned(ret, pidfd, errno) matches Ok(Some(child))
            &&& child.child_pid == ret
            &&& child.pidfd == pidfd
        },
{
}

/// A file of a process below `/proc`, by the number of the process.
pub open spec fn is_proc_file(path: Seq<u8>, pid: int, name: &str) -> bool {
    exists|digits: Seq<u8>|
        {
            &&& files::is_plain_number(digits)
            &&& files::value_of_digits(digits) == pid
            &&& path == #[trigger] ("/proc/".spec_bytes() + digits) + name.spec_bytes()
        }
}

/// A line that maps the one user or group 65534 of the sandbox to one of the host:
/// the three numbers with a space between them, the last of which is 1.
pub open spec fn maps_nobody_to(content: Seq<u8>, id: nat) -> bool {
    let n = content.len() as int;
    &&& n > 9
    &&& content.take(6) == seq![54u8, 53, 53, 51, 52, 32]
    &&& files::is_plain_number(content.subrange(6, n - 3))
    &&& files::value_of_digits(content.subrange(6, n - 3)) == id
    &&& content.skip(n - 3) == seq![32u8, 49, 10]
}

/// The mappings of a child read back: supplementary groups are denied first, then
/// nobody becomes the user, and then the group, that was asked for.
pub proof fn mappings_read_back(pid: int, uid: nat, gid: nat)
    requires
        pid > 0,
    ensures
        ({
            let writes = id_map_writes(pid, uid, gid);
            &&& writes.len() == 3
            &&& is_proc_file(writes[0].path, pid, "/setgroups")
            &&& writes[0].content == "deny".spec_bytes()
            &&& is_proc_file(writes[1].path, pid, "/uid_map")
            &&& maps_nobody_to(writes[1].content, uid)
            &&& is_proc_file(writes[2].path, pid, "/gid_map")
            &&& maps_nobody_to(writes[2].content, gid)
        }),
{
    files::written_numbers_read_back(uid, pid);
    let digits = files::signed_bytes(pid);
    let writes = id_map_writes(pid, uid, gid);
    assert(writes[0].path == ("/proc/".spec_bytes() + digits) + "/setgroups".spec_bytes());
    assert(writes[1].path == ("/proc/".spec_bytes() + digits) + "/uid_map".spec_bytes());
    assert(writes[2].path == ("/proc/".spec_bytes() + digits) + "/gid_map".spec_bytes());
    lemma_single_map(uid);
    lemma_single_map(gid);
}

proof fn lemma_single_map(id: nat)
    ensures
        maps_nobody_to(single_map(id), id),
{
    files::written_numbers_read_back(id, 0);
    reveal_strlit("65534 ");
    is_ascii_spec_bytes("65534 ");
    reveal_strlit(" 1\n");
    is_ascii_spec_bytes(" 1\n");
    let content = single_map(id);
    let n = content.len() as int;
    assert(content.take(6) =~= seq![54u8, 53, 53, 51, 52, 32]);
    assert(content.subrange(6, n - 3) =~= files::number_bytes(id));
    assert(content.skip(n - 3) =~= seq![32u8, 49, 10]);
}

/// What the child does, counted from its first and from its last step, and for what
/// stage each failure is reported. It waits for its mapping, asks to be killed with
/// the fork server and makes its scratch directory; it carries out each step on the
/// file system; it restricts its access to files, with every extra mount readable;
/// it sets the limits of the request and drops its capabilities; and it ends with
/// its three descriptors, the last restrictions and the program.
#[verifier::spinoff_prover]
pub proof fn children_do_what_was_asked_for(
    req: SpawnRequestView,
    fds: ChildFds,
    scratch_id: u64,
    i: int,
)
    ensures
        ({
            let steps = child_steps(req, fds, scratch_id);
            let mounts = mount::setup_steps(scratch_id, req.workspace_path, req.extra_ro_mounts);
            let n = steps.len() as int;
            &&& n == 19 + mounts.len()
            &&& steps[0].op == ChildOpView::AwaitMapping { fd: fds.sync_read_fd }
            &&& steps[0].on_failure == Some(ChildStage::WaitForMapping)
            &&& steps[1].op == ChildOpView::SetParentDeathSignal { signal: 9 }
            &&& steps[2].op == ChildOpView::CreateScratchRoot {
                path: mount::scratch_root(scratch_id),
                mode: 448,
            }
            &&& steps[2].on_failure == Some(ChildStage::BuildRootfs)
            &&& 0 <= i < mounts.len() ==> {
                &&& steps[3 + i].op == ChildOpView::Mount(mounts[i].op)
                &&& !(mounts[i].op is TryRemoveDir) ==> steps[3 + i].on_failure == Some(
                    mounts[i].stage,
                )
                &&& mounts[i].op is TryRemoveDir ==> steps[3 + i].on_failure is None
            }
            &&& steps[n - 16].op == ChildOpView::ApplyLandlock {
                workspace: "/workspace".spec_bytes(),
                extra_ro: req.extra_ro_mounts,
            }
            &&& steps[n - 16].on_failure == Some(ChildStage::Landlock)
            &&& sets_limit(steps[n - 15], Limit::OpenFiles, req.max_open_files)
            &&& sets_limit(steps[n - 14], Limit::FileSize, req.max_file_size_bytes)
            &&& sets_limit(steps[n - 13], Limit::StackSize, req.stack_size_bytes)
            &&& steps[n - 12].op == ChildOpView::SetSecureBits { bits: 62 }
            &&& steps[n - 12].on_failure == Some(ChildStage::CapabilityDrop)
            &&& steps[n - 11].op is ClearCapabilities
            &&& steps[n - 11].on_failure == Some(ChildStage::CapabilityDrop)
            &&& duplicates(steps[n - 10], fds.slave_fd, 0)
            &&& duplicates(steps[n - 9], fds.slave_fd, 1)
            &&& duplicates(steps[n - 8], fds.stderr_write_fd, 2)
            &&& steps[n - 7].op == ChildOpView::Close { fd: fds.slave_fd }
            &&& steps[n - 6].op == ChildOpView::Close { fd: fds.stderr_write_fd }
            &&& steps[n - 5].op == ChildOpView::Close { fd: fds.sync_read_fd }
            &&& steps[n - 4].op is SetNoNewPrivs
            &&& steps[n - 4].on_failure == Some(ChildStage::NoNewPrivs)
            &&& steps[n - 3].op is ClearDumpable
            &&& steps[n - 2].op is LoadFilter
            &&& steps[n - 2].on_failure == Some(ChildStage::Seccomp)
            &&& steps[n - 1].op == ChildOpView::Exec {
                program: req.argv[0],
                argv: req.argv,
                env: req.env,
            }
            &&& steps[n - 1].on_failure == Some(ChildStage::Exec)
        }),
{
    let steps = child_steps(req, fds, scratch_id);
    let mounts = mount::setup_steps(scratch_id, req.workspace_path, req.extra_ro_mounts);
    let early = early_steps(fds, scratch_id);
    let later = later_steps(req, fds);
    let n = steps.len() as int;
    everything_is_unshared();
    assert(later.len() == 16);
    assert(n == 19 + mounts.len());
    assert forall|k: int| 0 <= k < 16 implies #[trigger] steps[n - 16 + k] == later[k] by {}
    assert forall|k: int| 0 <= k < 3 implies #[trigger] steps[k] == early[k] by {}
    if 0 <= i < mounts.len() {
        assert(steps[3 + i] == as_child_step(mounts[i]));
    }
    lemma_later(req, fds);
    assert(steps[n - 16 + 0] == later[0]);
    assert(steps[n - 16 + 1] == later[1]);
    assert(steps[n - 16 + 2] == later[2]);
    assert(steps[n - 16 + 3] == later[3]);
    assert(steps[n - 16 + 4] == later[4]);
    assert(steps[n - 16 + 5] == later[5]);
    assert(steps[n - 16 + 6] == later[6]);
    assert(steps[n - 16 + 7] == later[7]);
    assert(steps[n - 16 + 8] == later[8]);
    assert(steps[n - 16 + 9] == later[9]);
    assert(steps[n - 16 + 10] == later[10]);
    assert(steps[n - 16 + 11] == later[11]);
    assert(steps[n - 16 + 12] == later[12]);
    assert(steps[n - 16 + 13] == later[13]);
    assert(steps[n - 16 + 14] == later[14]);
    assert(steps[n - 16 + 15] == later[15]);
}

/// A step sets a limit, without which the program is not started.
pub open spec fn sets_limit(step: ChildStepView, limit: Limit, value: u64) -> bool {
    &&& step.op == ChildOpView::SetLimit { limit, value }
    &&& step.on_failure == Some(ChildStage::Exec)
}

/// A step makes a descriptor a copy of another, without which the program is not
/// started.
pub open spec fn duplicates(step: ChildStepView, from: i32, to: i32) -> bool {
    &&& step.op == ChildOpView::Duplicate { from, to }
    &&& step.on_failure == Some(ChildStage::PtySlaveSetup)
}

proof fn lemma_later(req: SpawnRequestView, fds: ChildFds)
    ensures
        ({
            let later = later_steps(req, fds);
            &&& later.len() == 16
            &&& forall|k: int| 0 <= k < 3 ==> later[1 + k] == #[trigger] limit_steps(req)[k]
            &&& forall|k: int| 0 <= k < 2 ==> later[4 + k] == #[trigger] capability_steps()[k]
            &&& forall|k: int| 0 <= k < 10 ==> later[6 + k] == #[trigger] late_steps(req, fds)[k]
        }),
{
}

/// A step that failed ends the setup exactly if it is to be reported, and is then
/// reported with its own stage and the error number that it met.
pub proof fn failures_are_reported_as_they_are(stage: ChildStage, errno: i32, any: Option<i32>)
    ensures
        step_outcome(Some(stage), Some(errno)) == Err::<(), (ChildStage, i32)>((stage, errno)),
        step_outcome(Some(stage), None) is Ok,
        step_outcome(None, any) is Ok,
{
}

/// The failure that is reported is the first that matters, whatever would have come
/// after it; if none matters, every step is carried out.
pub proof fn the_first_failure_is_reported(
    steps: Seq<ChildStepView>,
    failures: Seq<Option<i32>>,
    k: int,
)
    requires
        0 <= k <= failures.len() <= steps.len(),
        forall|i: int|
            0 <= i < k ==> (#[trigger] failures[i]) is None || steps[i].on_failure is None,
    ensures
        k < failures.len() && failures[k] is Some && steps[k].on_failure is Some ==> carried_out(
            steps,
            failures,
        ) == Err::<nat, (ChildStage, i32)>((steps[k].on_failure->0, failures[k]->0)),
        k == failures.len() ==> carried_out(steps, failures) == Ok::<nat, (ChildStage, i32)>(
            failures.len(),
        ),
    decreases failures.len(),
{
    if failures.len() > 0 {
        let init = failures.drop_last();
        let n = failures.len() - 1;
        assert forall|i: int| 0 <= i < n && i < k implies (#[trigger] init[i]) is None
            || steps[i].on_failure is None by {
            assert(failures[i] == init[i]);
        }
        if k <= n {
            the_first_failure_is_reported(steps, init, k);
            if k < n {
                assert(init[k] == failures[k]);
            }
        } else {
            the_first_failure_is_reported(steps, init, n);
            assert(failures[n] is None || steps[n].on_failure is None);
        }
    }
}

/// Nothing on the pipe is no failure. Something is one: of the stage whose number is
/// the first byte, or of starting the program if there is no such stage, with the
/// error number that the next four bytes stand for, the lowest first.
pub proof fn failures_are_read_by_their_bytes(n: int, record: Seq<u8>)
    requires
        record.len() == 5,
    ensures
        n <= 0 ==> failure_in(n, record) is None,
        n > 0 ==> {
            let word = record[1] + 256 * record[2] + 65_536 * record[3] + 16_777_216 * record[4];
            let v = if word < 0x8000_0000 {
                word
            } else {
                word - 0x1_0000_0000
            };
            &&& failure_in(n, record) matches Some((stage, errno))
            &&& errno == v
            &&& 1 <= record[0] <= 14 ==> stage.code() == record[0]
            &&& !(1 <= record[0] <= 14) ==> stage == ChildStage::Exec
        },
{
    if n > 0 {
        let tagged = seq![0u8] + record.subrange(1, 5);
        ipc::what_responses_say(tagged);
        assert(tagged.subrange(1, 5) =~= record.subrange(1, 5));
        let code = record[0];
        lemma_stages_are_numbered(code);
        if 1 <= code <= 14 {
        } else {
            assert forall|stage: ChildStage| #[trigger] stage.code() != code by {
                error::stage_codes_differ(stage, stage);
            }
        }
    }
}

proof fn lemma_stages_are_numbered(code: u8)
    ensures
        1 <= code <= 14 ==> exists|stage: ChildStage| #[trigger] stage.code() == code,
{
    assert(ChildStage::WaitForMapping.code() == 1);
    assert(ChildStage::BreakPropagation.code() == 2);
    assert(ChildStage::BuildRootfs.code() == 3);
    assert(ChildStage::MountDevpts.code() == 4);
    assert(ChildStage::MountProc.code() == 5);
    assert(ChildStage::MountWorkspace.code() == 6);
    assert(ChildStage::MaskProc.code() == 7);
    assert(ChildStage::PivotRoot.code() == 8);
    assert(ChildStage::Landlock.code() == 9);
    assert(ChildStage::CapabilityDrop.code() == 10);
    assert(ChildStage::PtySlaveSetup.code() == 11);
    assert(ChildStage::NoNewPrivs.code() == 12);
    assert(ChildStage::Seccomp.code() == 13);
    assert(ChildStage::Exec.code() == 14);
}

/// Lists of steps and of writes are taken as they are: as many, in order.
pub proof fn lists_are_taken_as_they_are(
    steps: Seq<ChildStep>,
    writes: Seq<FileWrite<Vec<u8>>>,
    i: int,
)
    ensures
        steps_view(steps).len() == steps.len(),
        0 <= i < steps.len() ==> steps_view(steps)[i].op == steps[i].op@ && steps_view(
            steps,
        )[i].on_failure == steps[i].on_failure,
        writes_view(writes).len() == writes.len(),
        0 <= i < writes.len() ==> writes_view(writes)[i].path == writes[i].path@ && writes_view(
            writes,
        )[i].content == writes[i].content@,
{
}

/// What is said of a step of the child is what it holds.
pub proof fn an_operation_is_taken_as_it_is(op: ChildOp)
    ensures
        op matches ChildOp::AwaitMapping { fd } ==> op@ == (ChildOpView::AwaitMapping { fd }),
        op matches ChildOp::SetParentDeathSignal { signal } ==> op@ == (
        ChildOpView::SetParentDeathSignal { signal }),
        op matches ChildOp::CreateScratchRoot { path, mode } ==> op@ == (
        ChildOpView::CreateScratchRoot { path: path@, mode }),
        op matches ChildOp::Mount(inner) ==> op@ == ChildOpView::Mount(inner@),
        op matches ChildOp::ApplyLandlock { workspace, extra_ro } ==> op@ == (
        ChildOpView::ApplyLandlock {
            workspace: workspace@,
            extra_ro: wire::pair_views(extra_ro@),
        }),
        op matches ChildOp::SetLimit { limit, value } ==> op@ == (ChildOpView::SetLimit {
            limit,
            value,
        }),
        op matches ChildOp::SetSecureBits { bits } ==> op@ == (ChildOpView::SetSecureBits { bits }),
        op is ClearCapabilities ==> op@ is ClearCapabilities,
        op matches ChildOp::Duplicate { from, to } ==> op@ == (ChildOpView::Duplicate { from, to }),
        op matches ChildOp::Close { fd } ==> op@ == (ChildOpView::Close { fd }),
        op is SetNoNewPrivs ==> op@ is SetNoNewPrivs,
        op is ClearDumpable ==> op@ is ClearDumpable,
        op is LoadFilter ==> op@ is LoadFilter,
        op matches ChildOp::Exec { program, argv, env } ==> op@ == (ChildOpView::Exec {
            program: program@,
            argv: wire::views(argv@),
            env: wire::views(env@),
        }),
{
}

/// One step is taken at a time, and none after a failure that is reported.
pub proof fn one_step_is_taken_at_a_time(
    next: int,
    on_failure: Option<ChildStage>,
    failure: Option<i32>,
)
    ensures
        moved_on(next, step_outcome(on_failure, failure)) == if on_failure is Some
            && failure is Some {
            next
        } else {
            next + 1
        },
{
}

} // verus!
