//! The file system of the sandbox.
//!
//! `setup` lays down, step by step, how a child in a fresh mount namespace turns
//! a scratch directory into its root: a private tmpfs with a few devices, the
//! workspace, the extra mounts and a masked `/proc`. All of it is read-only in the
//! end but for the workspace.
use vstd::prelude::*;
use vstd::string::*;
use crate::error::ChildStage;
use crate::files;
use crate::paths;
use crate::paths::{bytes_of, copy, join, strip_slashes};
use crate::text;
use crate::text::{push_decimal, to_text_lossy};
use crate::wire;

verus! {

pub const MS_RDONLY: u64 = 1;
pub const MS_NOSUID: u64 = 2;
pub const MS_NODEV: u64 = 4;
pub const MS_NOEXEC: u64 = 8;
pub const MS_REMOUNT: u64 = 32;
pub const MS_BIND: u64 = 4096;
pub const MS_REC: u64 = 16384;
pub const MS_PRIVATE: u64 = 262144;

/// One operation on the file system; `P` holds a byte string.
pub enum MountOp<P> {
    /// Mount, or change a mount.
    Mount { source: Option<P>, target: P, fstype: Option<P>, flags: u64, data: Option<P> },
    /// Make a directory, whose parent is there.
    CreateDir { path: P, mode: u32 },
    /// Make a directory and its parents, where they are missing.
    CreateDirAll { path: P },
    /// Make an empty file.
    CreateFile { path: P },
    /// Cover the target, if it is there, by a stub of its own kind.
    Mask { target: P, dir_stub: P, file_stub: P },
    /// Make `new_root` the root, the old one then being at `put_old`.
    PivotRoot { new_root: P, put_old: P },
    ChangeDir { path: P },
    /// Detach what is mounted.
    Detach { path: P },
    /// Remove a directory; it does no harm if that fails.
    TryRemoveDir { path: P },
    RemoveDir { path: P },
}

/// An operation and the stage that is reported if it fails.
pub struct MountStep<P> {
    pub op: MountOp<P>,
    pub stage: ChildStage,
}

pub open spec fn opt_view(v: Option<Vec<u8>>) -> Option<Seq<u8>> {
    match v {
        Some(b) => Some(b@),
        None => None,
    }
}

impl View for MountOp<Vec<u8>> {
    type V = MountOp<Seq<u8>>;

    open spec fn view(&self) -> MountOp<Seq<u8>> {
        match *self {
            MountOp::Mount { source, target, fstype, flags, data } => MountOp::Mount {
                source: opt_view(source),
                target: target@,
                fstype: opt_view(fstype),
                flags,
                data: opt_view(data),
            },
            MountOp::CreateDir { path, mode } => MountOp::CreateDir { path: path@, mode },
            MountOp::CreateDirAll { path } => MountOp::CreateDirAll { path: path@ },
            MountOp::CreateFile { path } => MountOp::CreateFile { path: path@ },
            MountOp::Mask { target, dir_stub, file_stub } => MountOp::Mask {
                target: target@,
                dir_stub: dir_stub@,
                file_stub: file_stub@,
            },
            MountOp::PivotRoot { new_root, put_old } => MountOp::PivotRoot {
                new_root: new_root@,
                put_old: put_old@,
            },
            MountOp::ChangeDir { path } => MountOp::ChangeDir { path: path@ },
            MountOp::Detach { path } => MountOp::Detach { path: path@ },
            MountOp::TryRemoveDir { path } => MountOp::TryRemoveDir { path: path@ },
            MountOp::RemoveDir { path } => MountOp::RemoveDir { path: path@ },
        }
    }
}

impl View for MountStep<Vec<u8>> {
    type V = MountStep<Seq<u8>>;

    open spec fn view(&self) -> MountStep<Seq<u8>> {
        MountStep { op: self.op@, stage: self.stage }
    }
}

/// What the steps of a list say.
pub open spec fn steps_view(steps: Seq<MountStep<Vec<u8>>>) -> Seq<MountStep<Seq<u8>>> {
    Seq::new(steps.len(), |i: int| steps[i]@)
}

// ---- The scratch directory ----

/// The path, below the root, of the scratch directory with a number.
pub open spec fn scratch_name(id: u64) -> Seq<u8> {
    "tmp/sandbox-root-".spec_bytes() + text::ascii(text::decimal(id as nat))
}

/// The path of the scratch directory with a number.
pub open spec fn scratch_root(id: u64) -> Seq<u8> {
    "/".spec_bytes() + scratch_name(id)
}

/// The 64-bit pattern of a signed number, read as an unsigned one.
proof fn lemma_unsigned(v: i64)
    ensures
        (v as u64) as int == if v >= 0 {
            v as int
        } else {
            v + 0x1_0000_0000_0000_0000
        },
{
    let u: u64 = v as u64;
    assert(v >= 0 ==> u == v) by (bit_vector)
        requires
            u == v as u64,
    ;
    assert(v < 0 ==> u == v + 0x1_0000_0000_0000_0000) by (bit_vector)
        requires
            u == v as u64,
    ;
}

/// The number of a scratch directory, out of a clock reading: its nanoseconds, of
/// which 64 bits are kept.
pub open spec fn scratch_id_of(secs: i64, nanos: i64) -> int {
    (secs * 1_000_000_000 + nanos) % 0x1_0000_0000_0000_0000
}

/// The number of a scratch directory, out of a clock reading: its nanoseconds,
/// of which 64 bits are kept.
pub fn scratch_root_id(secs: i64, nanos: i64) -> (id: u64)
    ensures
        id == scratch_id_of(secs, nanos),
{
    let s: u64 = secs as u64;
    let n: u64 = nanos as u64;
    let product: u64 = s.wrapping_mul(1_000_000_000);
    let id: u64 = product.wrapping_add(n);
    proof {
        let m = 0x1_0000_0000_0000_0000int;
        lemma_unsigned(secs);
        lemma_unsigned(nanos);
        let k: int = (if secs >= 0 {
            0int
        } else {
            1_000_000_000
        }) + (if nanos >= 0 {
            0int
        } else {
            1
        });
        assert(product == (s * 1_000_000_000) % m);
        assert(id == (product + n) % m);
        vstd::arithmetic::div_mod::lemma_add_mod_noop(s * 1_000_000_000, n as int, m);
        vstd::arithmetic::div_mod::lemma_add_mod_noop(product as int, n as int, m);
        assert(s * 1_000_000_000 + n == m * k + (secs * 1_000_000_000 + nanos));
        vstd::arithmetic::div_mod::lemma_mod_multiples_vanish(
            k,
            secs * 1_000_000_000 + nanos,
            m,
        );
    }
    id
}

fn scratch_name_of(id: u64) -> (name: Vec<u8>)
    ensures
        name@ == scratch_name(id),
{
    let mut name = bytes_of("tmp/sandbox-root-");
    push_decimal(&mut name, id);
    name
}

/// The path of the scratch directory with a number.
pub fn scratch_root_path(id: u64) -> (path: Vec<u8>)
    ensures
        path@ == scratch_root(id),
{
    let mut path = bytes_of("/");
    wire::push_raw(&mut path, scratch_name_of(id).as_slice());
    path
}

// ---- The steps ----

/// A mount step.
pub open spec fn mount_step(
    source: Option<Seq<u8>>,
    target: Seq<u8>,
    fstype: Option<Seq<u8>>,
    flags: u64,
    data: Option<Seq<u8>>,
    stage: ChildStage,
) -> MountStep<Seq<u8>> {
    MountStep { op: MountOp::Mount { source, target, fstype, flags, data }, stage }
}

/// The step that makes a directory of the new root.
pub open spec fn dir_step(root: Seq<u8>, name: Seq<u8>) -> MountStep<Seq<u8>> {
    MountStep {
        op: MountOp::CreateDir { path: paths::below(root, name), mode: 0o755 },
        stage: ChildStage::BuildRootfs,
    }
}

/// Nothing is to leak to the host; then a tmpfs becomes the new root and gets
/// its directories.
pub open spec fn root_steps(root: Seq<u8>) -> Seq<MountStep<Seq<u8>>> {
    seq![
        mount_step(
            None,
            "/".spec_bytes(),
            None,
            MS_REC | MS_PRIVATE,
            None,
            ChildStage::BreakPropagation,
        ),
        mount_step(
            Some("tmpfs".spec_bytes()),
            root,
            Some("tmpfs".spec_bytes()),
            MS_NOSUID | MS_NODEV,
            Some("mode=0755".spec_bytes()),
            ChildStage::BuildRootfs,
        ),
        dir_step(root, "proc".spec_bytes()),
        dir_step(root, "tmp".spec_bytes()),
        dir_step(root, "dev".spec_bytes()),
        dir_step(root, "dev/pts".spec_bytes()),
        dir_step(root, "dev/shm".spec_bytes()),
        dir_step(root, "workspace".spec_bytes()),
    ]
}

/// Where, below the new root, a path of the sandbox lies.
pub open spec fn sandbox_target(root: Seq<u8>, path: Seq<u8>) -> Seq<u8> {
    paths::below(root, paths::relative(vstd::utf8::encode_utf8(text::lossy_text(path))))
}

/// A path that is valid UTF-8 lies below the new root under its own name.
pub open spec fn plain_target(root: Seq<u8>, path: Seq<u8>) -> bool {
    vstd::utf8::valid_utf8(path) ==> sandbox_target(root, path) == paths::below(
        root,
        paths::relative(path),
    )
}

/// The mount points of the extra mounts.
pub open spec fn mount_point_steps(
    root: Seq<u8>,
    mounts: Seq<(Seq<u8>, Seq<u8>)>,
) -> Seq<MountStep<Seq<u8>>> {
    Seq::new(
        mounts.len(),
        |i: int|
            MountStep {
                op: MountOp::CreateDirAll { path: sandbox_target(root, mounts[i].1) },
                stage: ChildStage::BuildRootfs,
            },
    )
}

/// A device of the host, bound to an empty file and made read-only. A device can
/// still be written to: a read-only mount keeps only the file system as it is.
pub open spec fn device_steps(root: Seq<u8>, name: Seq<u8>) -> Seq<MountStep<Seq<u8>>> {
    let guest = paths::below(paths::below(root, "dev".spec_bytes()), name);
    seq![
        MountStep { op: MountOp::CreateFile { path: guest }, stage: ChildStage::MountDevpts },
        mount_step(
            Some(paths::below("/dev".spec_bytes(), name)),
            guest,
            None,
            MS_BIND,
            None,
            ChildStage::MountDevpts,
        ),
        mount_step(
            Some(paths::below("/dev".spec_bytes(), name)),
            guest,
            None,
            MS_BIND | MS_REMOUNT | MS_RDONLY | MS_NOSUID | MS_NOEXEC,
            None,
            ChildStage::MountDevpts,
        ),
    ]
}

/// Terminals of the sandbox's own, and the three devices that programs need.
pub open spec fn dev_steps(root: Seq<u8>) -> Seq<MountStep<Seq<u8>>> {
    seq![
        mount_step(
            Some("devpts".spec_bytes()),
            paths::below(root, "dev/pts".spec_bytes()),
            Some("devpts".spec_bytes()),
            MS_NOSUID | MS_NOEXEC | MS_RDONLY,
            Some("newinstance,ptmxmode=0666,mode=0620".spec_bytes()),
            ChildStage::MountDevpts,
        ),
    ] + device_steps(root, "null".spec_bytes()) + device_steps(root, "zero".spec_bytes())
        + device_steps(root, "urandom".spec_bytes())
}

/// The workspace, read-write.
pub open spec fn workspace_step(root: Seq<u8>, workspace: Seq<u8>) -> MountStep<Seq<u8>> {
    mount_step(
        Some(workspace),
        paths::below(root, "workspace".spec_bytes()),
        None,
        MS_BIND | MS_REC,
        None,
        ChildStage::MountWorkspace,
    )
}

/// An extra mount: bound, then made read-only.
pub open spec fn extra_steps(root: Seq<u8>, mount: (Seq<u8>, Seq<u8>)) -> Seq<
    MountStep<Seq<u8>>,
> {
    let target = sandbox_target(root, mount.1);
    seq![
        mount_step(
            Some(mount.0),
            target,
            None,
            MS_BIND | MS_REC,
            None,
            ChildStage::MountWorkspace,
        ),
        mount_step(
            Some(mount.0),
            target,
            None,
            MS_BIND | MS_REMOUNT | MS_RDONLY | MS_REC,
            None,
            ChildStage::MountWorkspace,
        ),
    ]
}

/// All extra mounts, in their order.
pub open spec fn all_extra_steps(root: Seq<u8>, mounts: Seq<(Seq<u8>, Seq<u8>)>) -> Seq<
    MountStep<Seq<u8>>,
>
    decreases mounts.len(),
{
    if mounts.len() == 0 {
        Seq::empty()
    } else {
        all_extra_steps(root, mounts.drop_last()) + extra_steps(root, mounts.last())
    }
}

/// The step that masks a path of `/proc`.
pub open spec fn mask_step(root: Seq<u8>, name: Seq<u8>) -> MountStep<Seq<u8>> {
    MountStep {
        op: MountOp::Mask {
            target: paths::below(root, name),
            dir_stub: paths::below(root, "tmp/.proc-mask-dir".spec_bytes()),
            file_stub: paths::below(root, "tmp/.proc-mask-file".spec_bytes()),
        },
        stage: ChildStage::MaskProc,
    }
}

/// `/proc`, with what is dangerous in it masked.
pub open spec fn proc_steps(root: Seq<u8>) -> Seq<MountStep<Seq<u8>>> {
    seq![
        mount_step(
            Some("proc".spec_bytes()),
            paths::below(root, "proc".spec_bytes()),
            Some("proc".spec_bytes()),
            MS_NOSUID | MS_NODEV | MS_NOEXEC | MS_RDONLY,
            None,
            ChildStage::MountProc,
        ),
    ] + mask_steps(root)
}

/// The stubs, and the masking of each dangerous path of `/proc`.
pub open spec fn mask_steps(root: Seq<u8>) -> Seq<MountStep<Seq<u8>>> {
    seq![
        MountStep {
            op: MountOp::CreateDirAll {
                path: paths::below(root, "tmp/.proc-mask-dir".spec_bytes()),
            },
            stage: ChildStage::MaskProc,
        },
        MountStep {
            op: MountOp::CreateFile {
                path: paths::below(root, "tmp/.proc-mask-file".spec_bytes()),
            },
            stage: ChildStage::MaskProc,
        },
        mask_step(root, "proc/sys".spec_bytes()),
        mask_step(root, "proc/sysrq-trigger".spec_bytes()),
        mask_step(root, "proc/irq".spec_bytes()),
        mask_step(root, "proc/acpi".spec_bytes()),
    ]
}

/// The step that makes the root of the sandbox read-only.
pub open spec fn lock_step() -> MountStep<Seq<u8>> {
    mount_step(
        None,
        "/".spec_bytes(),
        None,
        MS_BIND | MS_REMOUNT | MS_RDONLY | MS_NOSUID | MS_NODEV,
        None,
        ChildStage::PivotRoot,
    )
}

/// The new root takes over; the old one is detached, after the change of
/// directory without which it would be busy, and after the scratch directory on
/// the host has been removed. At the very end the new root becomes read-only.
pub open spec fn pivot_steps(scratch_id: u64) -> Seq<MountStep<Seq<u8>>> {
    let root = scratch_root(scratch_id);
    let put_old = paths::below(root, ".put_old".spec_bytes());
    let stage = ChildStage::PivotRoot;
    seq![
        MountStep { op: MountOp::CreateDir { path: put_old, mode: 0o777 }, stage },
        MountStep { op: MountOp::PivotRoot { new_root: root, put_old }, stage },
        MountStep { op: MountOp::ChangeDir { path: "/".spec_bytes() }, stage },
        MountStep {
            op: MountOp::TryRemoveDir {
                path: paths::below("/.put_old".spec_bytes(), scratch_name(scratch_id)),
            },
            stage,
        },
        MountStep { op: MountOp::Detach { path: "/.put_old".spec_bytes() }, stage },
        MountStep { op: MountOp::RemoveDir { path: "/.put_old".spec_bytes() }, stage },
        lock_step(),
    ]
}

/// All steps, in their order.
pub open spec fn setup_steps(
    scratch_id: u64,
    workspace: Seq<u8>,
    mounts: Seq<(Seq<u8>, Seq<u8>)>,
) -> Seq<MountStep<Seq<u8>>> {
    let root = scratch_root(scratch_id);
    root_steps(root) + mount_point_steps(root, mounts) + dev_steps(root) + seq![
        workspace_step(root, workspace),
    ] + all_extra_steps(root, mounts) + proc_steps(root) + pivot_steps(scratch_id)
}

// ---- Laying down the steps ----

/// What the mount steps are made for.
pub struct MountContext<'a> {
    pub workspace_path: &'a Vec<u8>,
    pub extra_ro_mounts: &'a Vec<(Vec<u8>, Vec<u8>)>,
    /// The number of the scratch directory that becomes the root.
    pub scratch_id: u64,
}

/// A string literal as a byte string, where one is wanted.
fn some_bytes(s: &str) -> (b: Option<Vec<u8>>)
    ensures
        opt_view(b) == Some(s.spec_bytes()),
{
    Some(bytes_of(s))
}

fn push_step(steps: &mut Vec<MountStep<Vec<u8>>>, op: MountOp<Vec<u8>>, stage: ChildStage)
    ensures
        steps_view(final(steps)@) == steps_view(old(steps)@).push(MountStep { op: op@, stage }),
{
    let ghost before = steps@;
    steps.push(MountStep { op, stage });
    assert(steps_view(steps@) =~= steps_view(before).push(MountStep { op: op@, stage }));
}

fn push_dir(steps: &mut Vec<MountStep<Vec<u8>>>, root: &Vec<u8>, name: &str)
    ensures
        steps_view(final(steps)@) == steps_view(old(steps)@).push(
            dir_step(root@, name.spec_bytes()),
        ),
{
    let path = join(root, name.as_bytes());
    push_step(steps, MountOp::CreateDir { path, mode: 0o755 }, ChildStage::BuildRootfs);
}

fn push_root(steps: &mut Vec<MountStep<Vec<u8>>>, root: &Vec<u8>)
    ensures
        steps_view(final(steps)@) == steps_view(old(steps)@) + root_steps(root@),
{
    let ghost before = steps_view(steps@);
    push_step(
        steps,
        MountOp::Mount {
            source: None,
            target: bytes_of("/"),
            fstype: None,
            flags: MS_REC | MS_PRIVATE,
            data: None,
        },
        ChildStage::BreakPropagation,
    );
    push_step(
        steps,
        MountOp::Mount {
            source: some_bytes("tmpfs"),
            target: copy(root),
            fstype: some_bytes("tmpfs"),
            flags: MS_NOSUID | MS_NODEV,
            data: some_bytes("mode=0755"),
        },
        ChildStage::BuildRootfs,
    );
    push_dir(steps, root, "proc");
    push_dir(steps, root, "tmp");
    push_dir(steps, root, "dev");
    push_dir(steps, root, "dev/pts");
    push_dir(steps, root, "dev/shm");
    push_dir(steps, root, "workspace");
    assert(steps_view(steps@) =~= before + root_steps(root@));
}

/// A path of the sandbox, given as text, below the new root.
pub fn target_below(root: &Vec<u8>, path: &str) -> (target: Vec<u8>)
    ensures
        target@ == paths::below(root@, paths::relative(path.spec_bytes())),
{
    let rel = strip_slashes(path.as_bytes());
    join(root, rel.as_slice())
}

/// Where, below the new root, a path of the sandbox lies.
fn sandbox_target_of(root: &Vec<u8>, path: &Vec<u8>) -> (target: Vec<u8>)
    ensures
        target@ == sandbox_target(root@, path@),
        plain_target(root@, path@),
{
    let text = to_text_lossy(path.as_slice());
    proof {
        if vstd::utf8::valid_utf8(path@) {
            vstd::utf8::decode_utf8_encode_utf8(path@);
        }
    }
    target_below(root, text.as_str())
}

fn push_mount_points(
    steps: &mut Vec<MountStep<Vec<u8>>>,
    root: &Vec<u8>,
    mounts: &Vec<(Vec<u8>, Vec<u8>)>,
)
    ensures
        steps_view(final(steps)@) == steps_view(old(steps)@) + mount_point_steps(
            root@,
            wire::pair_views(mounts@),
        ),
        forall|i: int| 0 <= i < mounts@.len() ==> plain_target(root@, (#[trigger] mounts@[i]).1@),
{
    let ghost before = steps_view(steps@);
    let ghost all = wire::pair_views(mounts@);
    let mut i: usize = 0;
    assert(steps_view(steps@) =~= before + mount_point_steps(root@, all.take(0)));
    while i < mounts.len()
        invariant
            i <= mounts@.len(),
            all == wire::pair_views(mounts@),
            steps_view(steps@) == before + mount_point_steps(root@, all.take(i as int)),
            forall|j: int| 0 <= j < i ==> plain_target(root@, (#[trigger] mounts@[j]).1@),
        decreases mounts@.len() - i,
    {
        let path = sandbox_target_of(root, &mounts[i].1);
        push_step(steps, MountOp::CreateDirAll { path }, ChildStage::BuildRootfs);
        i += 1;
        assert(steps_view(steps@) =~= before + mount_point_steps(root@, all.take(i as int)));
    }
    assert(all.take(i as int) =~= all);
}

fn push_device(steps: &mut Vec<MountStep<Vec<u8>>>, root: &Vec<u8>, name: &str)
    ensures
        steps_view(final(steps)@) == steps_view(old(steps)@) + device_steps(
            root@,
            name.spec_bytes(),
        ),
{
    let ghost before = steps_view(steps@);
    let dev = join(root, "dev".as_bytes());
    let guest = join(&dev, name.as_bytes());
    let host = join(&bytes_of("/dev"), name.as_bytes());
    push_step(steps, MountOp::CreateFile { path: copy(&guest) }, ChildStage::MountDevpts);
    push_step(
        steps,
        MountOp::Mount {
            source: Some(copy(&host)),
            target: copy(&guest),
            fstype: None,
            flags: MS_BIND,
            data: None,
        },
        ChildStage::MountDevpts,
    );
    push_step(
        steps,
        MountOp::Mount {
            source: Some(host),
            target: guest,
            fstype: None,
            flags: MS_BIND | MS_REMOUNT | MS_RDONLY | MS_NOSUID | MS_NOEXEC,
            data: None,
        },
        ChildStage::MountDevpts,
    );
    assert(steps_view(steps@) =~= before + device_steps(root@, name.spec_bytes()));
}

fn push_dev(steps: &mut Vec<MountStep<Vec<u8>>>, root: &Vec<u8>)
    ensures
        steps_view(final(steps)@) == steps_view(old(steps)@) + dev_steps(root@),
{
    let ghost before = steps_view(steps@);
    push_step(
        steps,
        MountOp::Mount {
            source: some_bytes("devpts"),
            target: join(root, "dev/pts".as_bytes()),
            fstype: some_bytes("devpts"),
            flags: MS_NOSUID | MS_NOEXEC | MS_RDONLY,
            data: some_bytes("newinstance,ptmxmode=0666,mode=0620"),
        },
        ChildStage::MountDevpts,
    );
    push_device(steps, root, "null");
    push_device(steps, root, "zero");
    push_device(steps, root, "urandom");
    assert(steps_view(steps@) =~= before + dev_steps(root@));
}

fn push_extras(
    steps: &mut Vec<MountStep<Vec<u8>>>,
    root: &Vec<u8>,
    mounts: &Vec<(Vec<u8>, Vec<u8>)>,
)
    ensures
        steps_view(final(steps)@) == steps_view(old(steps)@) + all_extra_steps(
            root@,
            wire::pair_views(mounts@),
        ),
{
    let ghost before = steps_view(steps@);
    let ghost all = wire::pair_views(mounts@);
    let mut i: usize = 0;
    assert(steps_view(steps@) =~= before + all_extra_steps(root@, all.take(0)));
    while i < mounts.len()
        invariant
            i <= mounts@.len(),
            all == wire::pair_views(mounts@),
            steps_view(steps@) == before + all_extra_steps(root@, all.take(i as int)),
        decreases mounts@.len() - i,
    {
        let target = sandbox_target_of(root, &mounts[i].1);
        push_step(
            steps,
            MountOp::Mount {
                source: Some(copy(&mounts[i].0)),
                target: copy(&target),
                fstype: None,
                flags: MS_BIND | MS_REC,
                data: None,
            },
            ChildStage::MountWorkspace,
        );
        push_step(
            steps,
            MountOp::Mount {
                source: Some(copy(&mounts[i].0)),
                target,
                fstype: None,
                flags: MS_BIND | MS_REMOUNT | MS_RDONLY | MS_REC,
                data: None,
            },
            ChildStage::MountWorkspace,
        );
        proof {
            let next = all.take(i + 1);
            assert(next.drop_last() =~= all.take(i as int));
            assert(next.last() == all[i as int]);
        }
        i += 1;
        assert(steps_view(steps@) =~= before + all_extra_steps(root@, all.take(i as int)));
    }
    assert(all.take(i as int) =~= all);
}

fn push_mask(steps: &mut Vec<MountStep<Vec<u8>>>, root: &Vec<u8>, name: &str)
    ensures
        steps_view(final(steps)@) == steps_view(old(steps)@).push(
            mask_step(root@, name.spec_bytes()),
        ),
{
    let op = MountOp::Mask {
        target: join(root, name.as_bytes()),
        dir_stub: join(root, "tmp/.proc-mask-dir".as_bytes()),
        file_stub: join(root, "tmp/.proc-mask-file".as_bytes()),
    };
    push_step(steps, op, ChildStage::MaskProc);
}

/// Appends the masking of the dangerous paths of `/proc`.
fn mask_proc_paths(steps: &mut Vec<MountStep<Vec<u8>>>, root: &Vec<u8>)
    ensures
        steps_view(final(steps)@) == steps_view(old(steps)@) + mask_steps(root@),
{
    let ghost before = steps_view(steps@);
    let dir_stub = join(root, "tmp/.proc-mask-dir".as_bytes());
    push_step(steps, MountOp::CreateDirAll { path: dir_stub }, ChildStage::MaskProc);
    let file_stub = join(root, "tmp/.proc-mask-file".as_bytes());
    push_step(steps, MountOp::CreateFile { path: file_stub }, ChildStage::MaskProc);
    push_mask(steps, root, "proc/sys");
    push_mask(steps, root, "proc/sysrq-trigger");
    push_mask(steps, root, "proc/irq");
    push_mask(steps, root, "proc/acpi");
    assert(steps_view(steps@) =~= before + mask_steps(root@));
}

fn push_pivot(steps: &mut Vec<MountStep<Vec<u8>>>, scratch_id: u64)
    ensures
        steps_view(final(steps)@) == steps_view(old(steps)@) + pivot_steps(scratch_id),
{
    let ghost before = steps_view(steps@);
    let stage = ChildStage::PivotRoot;
    let root = scratch_root_path(scratch_id);
    let put_old = join(&root, ".put_old".as_bytes());
    let leftover = join(&bytes_of("/.put_old"), scratch_name_of(scratch_id).as_slice());
    push_step(steps, MountOp::CreateDir { path: copy(&put_old), mode: 0o777 }, stage);
    push_step(steps, MountOp::PivotRoot { new_root: root, put_old }, stage);
    push_step(steps, MountOp::ChangeDir { path: bytes_of("/") }, stage);
    push_step(steps, MountOp::TryRemoveDir { path: leftover }, stage);
    push_step(steps, MountOp::Detach { path: bytes_of("/.put_old") }, stage);
    push_step(steps, MountOp::RemoveDir { path: bytes_of("/.put_old") }, stage);
    push_step(
        steps,
        MountOp::Mount {
            source: None,
            target: bytes_of("/"),
            fstype: None,
            flags: MS_BIND | MS_REMOUNT | MS_RDONLY | MS_NOSUID | MS_NODEV,
            data: None,
        },
        stage,
    );
    assert(steps_view(steps@) =~= before + pivot_steps(scratch_id));
}

/// The steps that turn the scratch directory into the root of the sandbox. The
/// extra mounts whose path is valid UTF-8 lie below it under their own names.
pub fn setup(ctx: &MountContext<'_>) -> (steps: Vec<MountStep<Vec<u8>>>)
    ensures
        steps_view(steps@) == setup_steps(
            ctx.scratch_id,
            ctx.workspace_path@,
            wire::pair_views(ctx.extra_ro_mounts@),
        ),
        forall|i: int|
            0 <= i < ctx.extra_ro_mounts@.len() ==> plain_target(
                scratch_root(ctx.scratch_id),
                (#[trigger] ctx.extra_ro_mounts@[i]).1@,
            ),
{
    let root = scratch_root_path(ctx.scratch_id);
    let mut steps: Vec<MountStep<Vec<u8>>> = Vec::new();
    push_root(&mut steps, &root);
    push_mount_points(&mut steps, &root, ctx.extra_ro_mounts);
    push_dev(&mut steps, &root);
    push_step(
        &mut steps,
        MountOp::Mount {
            source: Some(copy(ctx.workspace_path)),
            target: join(&root, "workspace".as_bytes()),
            fstype: None,
            flags: MS_BIND | MS_REC,
            data: None,
        },
        ChildStage::MountWorkspace,
    );
    push_extras(&mut steps, &root, ctx.extra_ro_mounts);
    push_step(
        &mut steps,
        MountOp::Mount {
            source: some_bytes("proc"),
            target: join(&root, "proc".as_bytes()),
            fstype: some_bytes("proc"),
            flags: MS_NOSUID | MS_NODEV | MS_NOEXEC | MS_RDONLY,
            data: None,
        },
        ChildStage::MountProc,
    );
    mask_proc_paths(&mut steps, &root);
    push_pivot(&mut steps, ctx.scratch_id);
    assert(steps_view(steps@) =~= setup_steps(
        ctx.scratch_id,
        ctx.workspace_path@,
        wire::pair_views(ctx.extra_ro_mounts@),
    ));
    steps
}

/// What the operations of a list say.
pub open spec fn ops_view(ops: Seq<MountOp<Vec<u8>>>) -> Seq<MountOp<Seq<u8>>> {
    Seq::new(ops.len(), |i: int| ops[i]@)
}

/// A stub bound over a path, and made read-only.
pub open spec fn mask_ops(stub: Seq<u8>, target: Seq<u8>) -> Seq<MountOp<Seq<u8>>> {
    seq![
        MountOp::Mount {
            source: Some(stub),
            target,
            fstype: None,
            flags: MS_BIND | MS_RDONLY,
            data: None,
        },
        MountOp::Mount {
            source: Some(stub),
            target,
            fstype: None,
            flags: MS_BIND | MS_REMOUNT | MS_RDONLY | MS_NOSUID | MS_NODEV,
            data: None,
        },
    ]
}

/// What masks a path: nothing if it is missing, the directory stub if it is a
/// directory, the file stub if it is anything else.
pub open spec fn masking(
    target: Seq<u8>,
    dir_stub: Seq<u8>,
    file_stub: Seq<u8>,
    present: bool,
    is_dir: bool,
) -> Seq<MountOp<Seq<u8>>> {
    if !present {
        Seq::empty()
    } else if is_dir {
        mask_ops(dir_stub, target)
    } else {
        mask_ops(file_stub, target)
    }
}

/// How a path is masked, once it is known whether it is there and what it is: not
/// at all if it is missing, a directory by the directory stub, anything else by
/// the file stub; read-only in either case. A bind takes over the flags of what it
/// binds, so that it takes a second operation to make it read-only.
pub fn mask_mount(
    target: Vec<u8>,
    dir_stub: Vec<u8>,
    file_stub: Vec<u8>,
    present: bool,
    is_dir: bool,
) -> (ops: Vec<MountOp<Vec<u8>>>)
    ensures
        ops_view(ops@) == masking(target@, dir_stub@, file_stub@, present, is_dir),
{
    let mut ops: Vec<MountOp<Vec<u8>>> = Vec::new();
    if !present {
        assert(ops_view(ops@) =~= Seq::empty());
        return ops;
    }
    let stub = if is_dir {
        dir_stub
    } else {
        file_stub
    };
    let ghost wanted = mask_ops(stub@, target@);
    ops.push(
        MountOp::Mount {
            source: Some(copy(&stub)),
            target: copy(&target),
            fstype: None,
            flags: MS_BIND | MS_RDONLY,
            data: None,
        },
    );
    ops.push(
        MountOp::Mount {
            source: Some(stub),
            target,
            fstype: None,
            flags: MS_BIND | MS_REMOUNT | MS_RDONLY | MS_NOSUID | MS_NODEV,
            data: None,
        },
    );
    assert(ops_view(ops@) =~= wanted);
    ops
}

// ---- What the steps guarantee ----

/// The operation mounts something that can be written to: it mounts a file system
/// without the read-only flag, binds, for which that flag does nothing, or changes
/// a mount without the read-only flag. (To change the propagation mounts nothing.)
pub open spec fn mounts_writable(op: MountOp<Seq<u8>>) -> bool {
    op matches MountOp::Mount { source, target, fstype, flags, data } && flags & MS_PRIVATE == 0
        && (flags & MS_RDONLY == 0 || (flags & MS_BIND != 0 && flags & MS_REMOUNT == 0))
}

/// The second operation makes what the first one mounted read-only. That is the
/// mount itself: where a bind has brought along what is mounted below it, the kernel
/// leaves those further mounts as they are on the host, whatever the flags say.
pub open spec fn makes_read_only(first: MountOp<Seq<u8>>, second: MountOp<Seq<u8>>) -> bool {
    match (first, second) {
        (
            MountOp::Mount { source: s1, target: t1, fstype: _, flags: _, data: _ },
            MountOp::Mount { source: s2, target: t2, fstype: _, flags: f2, data: _ },
        ) => s1 == s2 && t1 == t2 && f2 & MS_REMOUNT != 0 && f2 & MS_RDONLY != 0,
        _ => false,
    }
}

/// A mask is read-only.
pub proof fn masks_are_read_only(stub: Seq<u8>, target: Seq<u8>)
    ensures
        makes_read_only(mask_ops(stub, target)[0], mask_ops(stub, target)[1]),
        !mounts_writable(mask_ops(stub, target)[1]),
{
    lemma_flags();
}

/// What the bits of the flags say.
proof fn lemma_flags()
    ensures
        (MS_REC | MS_PRIVATE) & MS_PRIVATE != 0,
        (MS_NOSUID | MS_NOEXEC | MS_RDONLY) & MS_RDONLY != 0,
        (MS_NOSUID | MS_NOEXEC | MS_RDONLY) & MS_BIND == 0,
        (MS_NOSUID | MS_NODEV | MS_NOEXEC | MS_RDONLY) & MS_RDONLY != 0,
        (MS_NOSUID | MS_NODEV | MS_NOEXEC | MS_RDONLY) & MS_BIND == 0,
        (MS_BIND | MS_REMOUNT | MS_RDONLY | MS_REC) & MS_RDONLY != 0,
        (MS_BIND | MS_REMOUNT | MS_RDONLY | MS_REC) & MS_REMOUNT != 0,
        (MS_BIND | MS_REMOUNT | MS_RDONLY | MS_NOSUID | MS_NOEXEC) & MS_RDONLY != 0,
        (MS_BIND | MS_REMOUNT | MS_RDONLY | MS_NOSUID | MS_NOEXEC) & MS_REMOUNT != 0,
        (MS_BIND | MS_REMOUNT | MS_RDONLY | MS_NOSUID | MS_NODEV) & MS_RDONLY != 0,
        (MS_BIND | MS_REMOUNT | MS_RDONLY | MS_NOSUID | MS_NODEV) & MS_REMOUNT != 0,
{
    assert((16384u64 | 262144u64) & 262144u64 != 0) by (bit_vector);
    assert((2u64 | 8u64 | 1u64) & 1u64 != 0 && (2u64 | 8u64 | 1u64) & 4096u64 == 0)
        by (bit_vector);
    assert((2u64 | 4u64 | 8u64 | 1u64) & 1u64 != 0 && (2u64 | 4u64 | 8u64 | 1u64) & 4096u64 == 0)
        by (bit_vector);
    assert((4096u64 | 32u64 | 1u64 | 16384u64) & 1u64 != 0 && (4096u64 | 32u64 | 1u64 | 16384u64)
        & 32u64 != 0) by (bit_vector);
    assert((4096u64 | 32u64 | 1u64 | 2u64 | 8u64) & 1u64 != 0 && (4096u64 | 32u64 | 1u64 | 2u64
        | 8u64) & 32u64 != 0) by (bit_vector);
    assert((4096u64 | 32u64 | 1u64 | 2u64 | 4u64) & 1u64 != 0 && (4096u64 | 32u64 | 1u64 | 2u64
        | 4u64) & 32u64 != 0) by (bit_vector);
}

proof fn lemma_extra_steps(root: Seq<u8>, mounts: Seq<(Seq<u8>, Seq<u8>)>)
    ensures
        all_extra_steps(root, mounts).len() == 2 * mounts.len(),
        forall|k: int|
            0 <= k < all_extra_steps(root, mounts).len() ==> #[trigger] all_extra_steps(
                root,
                mounts,
            )[k] == extra_steps(root, mounts[k / 2])[k % 2],
    decreases mounts.len(),
{
    if mounts.len() > 0 {
        let init = mounts.drop_last();
        lemma_extra_steps(root, init);
        let all = all_extra_steps(root, mounts);
        assert forall|k: int| 0 <= k < all.len() implies #[trigger] all[k] == extra_steps(
            root,
            mounts[k / 2],
        )[k % 2] by {
            if k < 2 * init.len() {
                assert(all[k] == all_extra_steps(root, init)[k]);
                assert(init[k / 2] == mounts[k / 2]);
            } else {
                assert(all[k] == extra_steps(root, mounts.last())[k - 2 * init.len()]);
                assert(k / 2 == init.len() && k % 2 == k - 2 * init.len());
            }
        }
    }
}

/// The step at a position, by the part of the plan that it belongs to.
#[verifier::opaque]
spec fn step_at(
    scratch_id: u64,
    workspace: Seq<u8>,
    mounts: Seq<(Seq<u8>, Seq<u8>)>,
    i: int,
) -> MountStep<Seq<u8>> {
    let n = mounts.len();
    let root = scratch_root(scratch_id);
    if i < 8 {
        root_steps(root)[i]
    } else if i < 8 + n {
        mount_point_steps(root, mounts)[i - 8]
    } else if i < 18 + n {
        dev_steps(root)[i - 8 - n]
    } else if i == 18 + n {
        workspace_step(root, workspace)
    } else if i < 19 + 3 * n {
        extra_steps(root, mounts[(i - 19 - n) / 2])[(i - 19 - n) % 2]
    } else if i < 26 + 3 * n {
        proc_steps(root)[i - 19 - 3 * n]
    } else {
        pivot_steps(scratch_id)[i - 26 - 3 * n]
    }
}

proof fn lemma_step_at(
    scratch_id: u64,
    workspace: Seq<u8>,
    mounts: Seq<(Seq<u8>, Seq<u8>)>,
    i: int,
)
    requires
        0 <= i < setup_steps(scratch_id, workspace, mounts).len(),
    ensures
        setup_steps(scratch_id, workspace, mounts).len() == 33 + 3 * mounts.len(),
        setup_steps(scratch_id, workspace, mounts)[i] == step_at(scratch_id, workspace, mounts, i),
{
    reveal(step_at);
    lemma_extra_steps(scratch_root(scratch_id), mounts);
}

/// The part of the plan that the step at a position belongs to.
proof fn lemma_part(
    scratch_id: u64,
    workspace: Seq<u8>,
    mounts: Seq<(Seq<u8>, Seq<u8>)>,
    i: int,
)
    requires
        0 <= i < 33 + 3 * mounts.len(),
    ensures
        ({
            let n = mounts.len();
            let root = scratch_root(scratch_id);
            let step = step_at(scratch_id, workspace, mounts, i);
            &&& i < 8 ==> step == root_steps(root)[i]
            &&& 8 <= i < 8 + n ==> step == mount_point_steps(root, mounts)[i - 8]
            &&& 8 + n <= i < 18 + n ==> step == dev_steps(root)[i - 8 - n]
            &&& i == 18 + n ==> step == workspace_step(root, workspace)
            &&& 19 + n <= i < 19 + 3 * n ==> step == extra_steps(
                root,
                mounts[(i - 19 - n) / 2],
            )[(i - 19 - n) % 2]
            &&& 19 + 3 * n <= i < 26 + 3 * n ==> step == proc_steps(root)[i - 19 - 3 * n]
            &&& 26 + 3 * n <= i ==> step == pivot_steps(scratch_id)[i - 26 - 3 * n]
        }),
{
    reveal(step_at);
}

proof fn lemma_dev_step_at(root: Seq<u8>, k: int)
    requires
        0 < k < 10,
    ensures
        dev_steps(root)[k] == if k < 4 {
            device_steps(root, "null".spec_bytes())[k - 1]
        } else if k < 7 {
            device_steps(root, "zero".spec_bytes())[k - 4]
        } else {
            device_steps(root, "urandom".spec_bytes())[k - 7]
        },
{
}

/// The name of a path of the new root is no absolute path.
proof fn lemma_names()
    ensures
        !paths::is_absolute("proc".spec_bytes()),
        !paths::is_absolute("dev".spec_bytes()),
        !paths::is_absolute("dev/pts".spec_bytes()),
        !paths::is_absolute("workspace".spec_bytes()),
        !paths::is_absolute("null".spec_bytes()),
        !paths::is_absolute("zero".spec_bytes()),
        !paths::is_absolute("urandom".spec_bytes()),
{
    reveal_strlit("proc");
    reveal_strlit("dev");
    reveal_strlit("dev/pts");
    reveal_strlit("workspace");
    reveal_strlit("null");
    reveal_strlit("zero");
    reveal_strlit("urandom");
    is_ascii_spec_bytes("proc");
    is_ascii_spec_bytes("dev");
    is_ascii_spec_bytes("dev/pts");
    is_ascii_spec_bytes("workspace");
    is_ascii_spec_bytes("null");
    is_ascii_spec_bytes("zero");
    is_ascii_spec_bytes("urandom");
}

/// A path begins with another.
pub open spec fn begins_with(path: Seq<u8>, head: Seq<u8>) -> bool {
    path.len() >= head.len() && path.subrange(0, head.len() as int) == head
}

/// A mount step mounts below a path.
spec fn mounts_below(step: MountStep<Seq<u8>>, root: Seq<u8>) -> bool {
    step.op matches MountOp::Mount { source, target, fstype, flags, data } ==> begins_with(
        target,
        root,
    )
}

proof fn lemma_device_below(root: Seq<u8>, name: Seq<u8>)
    requires
        !paths::is_absolute(name),
    ensures
        mounts_below(device_steps(root, name)[0], root),
        mounts_below(device_steps(root, name)[1], root),
        mounts_below(device_steps(root, name)[2], root),
{
    lemma_names();
    let dev = paths::below(root, "dev".spec_bytes());
    let guest = paths::below(dev, name);
    paths::below_begins_with_base(root, "dev".spec_bytes());
    paths::below_begins_with_base(dev, name);
    assert(guest.subrange(0, dev.len() as int).subrange(0, root.len() as int) =~= guest.subrange(
        0,
        root.len() as int,
    ));
}

/// The step has nothing to do with the change of roots.
spec fn before_pivot(step: MountStep<Seq<u8>>) -> bool {
    !(step.op is PivotRoot) && !(step.op is ChangeDir) && !(step.op is Detach)
        && !(step.op is RemoveDir)
}

proof fn lemma_root_part(root: Seq<u8>, k: int)
    requires
        0 <= k < 8,
    ensures
        before_pivot(root_steps(root)[k]),
        mounts_writable(root_steps(root)[k].op) ==> k == 1,
        k > 0 ==> mounts_below(root_steps(root)[k], root),
{
    lemma_flags();
    assert(root.subrange(0, root.len() as int) =~= root);
}

/// The position of a step that binds a device: the next step makes it read-only.
spec fn binds_device_at(k: int) -> bool {
    k == 2 || k == 5 || k == 8
}

proof fn lemma_device_part(root: Seq<u8>, name: Seq<u8>, k: int)
    requires
        0 <= k < 3,
    ensures
        before_pivot(device_steps(root, name)[k]),
        mounts_writable(device_steps(root, name)[k].op) ==> k == 1,
        makes_read_only(device_steps(root, name)[1].op, device_steps(root, name)[2].op),
{
    lemma_flags();
}

proof fn lemma_dev_part(root: Seq<u8>, k: int)
    requires
        0 <= k < 10,
    ensures
        before_pivot(dev_steps(root)[k]),
        mounts_writable(dev_steps(root)[k].op) ==> binds_device_at(k),
        binds_device_at(k) ==> makes_read_only(dev_steps(root)[k].op, dev_steps(root)[k + 1].op),
        mounts_below(dev_steps(root)[k], root),
{
    lemma_flags();
    lemma_names();
    paths::below_begins_with_base(root, "dev/pts".spec_bytes());
    if k > 0 {
        lemma_dev_step_at(root, k);
        let (name, first) = if k < 4 {
            ("null".spec_bytes(), 1int)
        } else if k < 7 {
            ("zero".spec_bytes(), 4int)
        } else {
            ("urandom".spec_bytes(), 7int)
        };
        lemma_device_below(root, name);
        lemma_device_part(root, name, k - first);
        if binds_device_at(k) {
            lemma_dev_step_at(root, k + 1);
        }
    }
}

proof fn lemma_extra_part(root: Seq<u8>, mount: (Seq<u8>, Seq<u8>), k: int)
    requires
        0 <= k < 2,
    ensures
        before_pivot(extra_steps(root, mount)[k]),
        mounts_writable(extra_steps(root, mount)[k].op) ==> k == 0,
        mounts_below(extra_steps(root, mount)[k], root),
        makes_read_only(extra_steps(root, mount)[0].op, extra_steps(root, mount)[1].op),
{
    lemma_flags();
    let path = vstd::utf8::encode_utf8(text::lossy_text(mount.1));
    paths::relative_is_not_absolute(path);
    paths::below_begins_with_base(root, paths::relative(path));
}

proof fn lemma_proc_part(root: Seq<u8>, k: int)
    requires
        0 <= k < 7,
    ensures
        before_pivot(proc_steps(root)[k]),
        !mounts_writable(proc_steps(root)[k].op),
        mounts_below(proc_steps(root)[k], root),
{
    lemma_flags();
    lemma_names();
    paths::below_begins_with_base(root, "proc".spec_bytes());
    if k > 0 {
        assert(proc_steps(root)[k] == mask_steps(root)[k - 1]);
    }
}

proof fn lemma_pivot_part(scratch_id: u64, k: int)
    requires
        0 <= k < 7,
    ensures
        ({
            let op = pivot_steps(scratch_id)[k].op;
            &&& !(op is Mask)
            &&& op is Mount <==> k == 6
            &&& !mounts_writable(op)
            &&& op is PivotRoot <==> k == 1
            &&& op is ChangeDir <==> k == 2
            &&& op is Detach <==> k == 4
            &&& op is RemoveDir <==> k == 5
        }),
{
    lemma_flags();
}

/// What holds of the step at a position.
spec fn facts_of(root: Seq<u8>, n: nat, i: int, step: MountStep<Seq<u8>>) -> bool {
    let len = 33 + 3 * n;
    &&& step.op is Mount || step.op is Mask ==> i < len - 6 || i == len - 1
    &&& step.op is PivotRoot <==> i == len - 6
    &&& step.op is ChangeDir <==> i == len - 5
    &&& step.op is Detach <==> i == len - 3
    &&& step.op is RemoveDir <==> i == len - 2
    &&& mounts_writable(step.op) ==> {
        ||| i == 1
        ||| i == 18 + n
        ||| 8 + n <= i < 18 + n && binds_device_at(i - 8 - n)
        ||| 19 + n <= i < 19 + 3 * n && (i - 19 - n) % 2 == 0
    }
    &&& 0 < i < len - 1 ==> mounts_below(step, root)
}

#[verifier::spinoff_prover]
proof fn lemma_facts(
    scratch_id: u64,
    workspace: Seq<u8>,
    mounts: Seq<(Seq<u8>, Seq<u8>)>,
    i: int,
)
    requires
        0 <= i < 33 + 3 * mounts.len(),
    ensures
        facts_of(
            scratch_root(scratch_id),
            mounts.len(),
            i,
            step_at(scratch_id, workspace, mounts, i),
        ),
{
    let root = scratch_root(scratch_id);
    let n = mounts.len();
    let step = step_at(scratch_id, workspace, mounts, i);
    lemma_part(scratch_id, workspace, mounts, i);
    if i < 8 {
        lemma_root_part(root, i);
    } else if i < 8 + n {
        assert(step.op is CreateDirAll);
    } else if i < 18 + n {
        lemma_dev_part(root, i - 8 - n);
    } else if i == 18 + n {
        lemma_names();
        paths::below_begins_with_base(root, "workspace".spec_bytes());
    } else if i < 19 + 3 * n {
        lemma_extra_part(root, mounts[(i - 19 - n) / 2], (i - 19 - n) % 2);
    } else if i < 26 + 3 * n {
        lemma_proc_part(root, i - 19 - 3 * n);
    } else {
        lemma_pivot_part(scratch_id, i - 26 - 3 * n);
    }
}

/// No mount that the sandbox makes is left writable but the workspace. Whatever else
/// is mounted writable is made read-only by the very next step; the root itself, in
/// which the mount points have yet to be made, by the last one. Of an extra mount
/// this is said of its top: what the host has mounted below it comes along with the
/// bind and stays as it is on the host.
#[verifier::spinoff_prover]
pub proof fn only_the_workspace_is_writable(
    scratch_id: u64,
    workspace: Seq<u8>,
    mounts: Seq<(Seq<u8>, Seq<u8>)>,
    i: int,
)
    requires
        0 <= i < setup_steps(scratch_id, workspace, mounts).len(),
        mounts_writable(setup_steps(scratch_id, workspace, mounts)[i].op),
    ensures
        ({
            let steps = setup_steps(scratch_id, workspace, mounts);
            let root = scratch_root(scratch_id);
            ||| steps[i] == workspace_step(root, workspace)
            ||| i + 1 < steps.len() && makes_read_only(steps[i].op, steps[i + 1].op)
            ||| {
                &&& i == 1 && steps[i] == root_steps(root)[1]
                &&& steps[steps.len() - 6].op matches MountOp::PivotRoot { new_root, put_old }
                &&& new_root == root
                &&& steps.last() == lock_step()
            }
        }),
{
    let n = mounts.len();
    let root = scratch_root(scratch_id);
    lemma_step_at(scratch_id, workspace, mounts, i);
    lemma_facts(scratch_id, workspace, mounts, i);
    lemma_part(scratch_id, workspace, mounts, i);
    if i == 1 {
        let last = 32 + 3 * n as int;
        lemma_step_at(scratch_id, workspace, mounts, last);
        lemma_part(scratch_id, workspace, mounts, last);
        lemma_step_at(scratch_id, workspace, mounts, last - 5);
        lemma_part(scratch_id, workspace, mounts, last - 5);
        assert(pivot_steps(scratch_id)[6] == lock_step());
    } else if 8 + n <= i < 18 + n {
        lemma_step_at(scratch_id, workspace, mounts, i + 1);
        lemma_part(scratch_id, workspace, mounts, i + 1);
        lemma_dev_part(root, i - 8 - n);
    } else if 19 + n <= i < 19 + 3 * n {
        let k = i - 19 - n;
        assert((k + 1) / 2 == k / 2 && (k + 1) % 2 == 1);
        lemma_step_at(scratch_id, workspace, mounts, i + 1);
        lemma_part(scratch_id, workspace, mounts, i + 1);
        lemma_extra_part(root, mounts[k / 2], 0);
    }
}

/// The sandbox is cut off from the host first of all; all mounts come before the
/// new root takes over; then the directory is changed before the old root is
/// detached, and its mount point removed; at the very end the new root is locked.
pub proof fn steps_are_in_order(
    scratch_id: u64,
    workspace: Seq<u8>,
    mounts: Seq<(Seq<u8>, Seq<u8>)>,
    i: int,
)
    requires
        0 <= i < setup_steps(scratch_id, workspace, mounts).len(),
    ensures
        ({
            let steps = setup_steps(scratch_id, workspace, mounts);
            let len = steps.len();
            let op = steps[i].op;
            &&& steps[0].stage == ChildStage::BreakPropagation
            &&& op is Mount || op is Mask ==> i < len - 6 || i == len - 1
            &&& op is PivotRoot <==> i == len - 6
            &&& op is ChangeDir <==> i == len - 5
            &&& op is Detach <==> i == len - 3
            &&& op is RemoveDir <==> i == len - 2
        }),
{
    lemma_step_at(scratch_id, workspace, mounts, 0);
    lemma_step_at(scratch_id, workspace, mounts, i);
    lemma_facts(scratch_id, workspace, mounts, i);
    lemma_part(scratch_id, workspace, mounts, 0);
}

/// After the first step and until the last one, by when it is the root, everything
/// is mounted at a path that begins with the path of the scratch directory.
pub proof fn mounts_stay_below_the_scratch_directory(
    scratch_id: u64,
    workspace: Seq<u8>,
    mounts: Seq<(Seq<u8>, Seq<u8>)>,
    i: int,
)
    requires
        0 < i < setup_steps(scratch_id, workspace, mounts).len() - 1,
    ensures
        setup_steps(scratch_id, workspace, mounts)[i].op matches MountOp::Mount {
            source,
            target,
            fstype,
            flags,
            data,
        } ==> begins_with(target, scratch_root(scratch_id)),
{
    lemma_step_at(scratch_id, workspace, mounts, i);
    lemma_facts(scratch_id, workspace, mounts, i);
}

// ---- What the steps do ----

/// The numbers that the flags make up.
proof fn lemma_flag_values()
    ensures
        MS_REC | MS_PRIVATE == 278_528,
        MS_NOSUID | MS_NODEV == 6,
        MS_NOSUID | MS_NOEXEC | MS_RDONLY == 11,
        MS_NOSUID | MS_NODEV | MS_NOEXEC | MS_RDONLY == 15,
        MS_BIND | MS_REC == 20_480,
        MS_BIND | MS_RDONLY == 4097,
        MS_BIND | MS_REMOUNT | MS_RDONLY | MS_REC == 20_513,
        MS_BIND | MS_REMOUNT | MS_RDONLY | MS_NOSUID | MS_NOEXEC == 4139,
        MS_BIND | MS_REMOUNT | MS_RDONLY | MS_NOSUID | MS_NODEV == 4135,
{
    assert(16384u64 | 262144u64 == 278_528u64 && 2u64 | 4u64 == 6u64 && 2u64 | 8u64 | 1u64 == 11u64
        && 2u64 | 4u64 | 8u64 | 1u64 == 15u64 && 4096u64 | 16384u64 == 20_480u64 && 4096u64 | 1u64
        == 4097u64 && 4096u64 | 32u64 | 1u64 | 16384u64 == 20_513u64 && 4096u64 | 32u64 | 1u64
        | 2u64 | 8u64 == 4139u64 && 4096u64 | 32u64 | 1u64 | 2u64 | 4u64 == 4135u64)
        by (bit_vector);
}

/// A step binds a path of the host, or changes such a mount, by the number of its
/// flags.
pub open spec fn is_bind(
    step: MountStep<Seq<u8>>,
    source: Seq<u8>,
    target: Seq<u8>,
    flags: u64,
) -> bool {
    step.op == MountOp::Mount { source: Some(source), target, fstype: None, flags, data: None }
}

/// Every extra mount is made: a directory for it, a bind of its path on the host to
/// its place in the sandbox, with whatever is mounted below (flags 20480), and a
/// change of that mount to read-only (flags 20513), each of them a step of its own
/// and in the order of the mounts. The place is the path in the sandbox without the
/// slashes that it begins with, put below the scratch directory, provided that the
/// path is text.
#[verifier::spinoff_prover]
pub proof fn every_extra_mount_is_made(
    scratch_id: u64,
    workspace: Seq<u8>,
    mounts: Seq<(Seq<u8>, Seq<u8>)>,
    j: int,
)
    requires
        0 <= j < mounts.len(),
        vstd::utf8::valid_utf8(mounts[j].1),
        text::lossy_text(mounts[j].1) == vstd::utf8::decode_utf8(mounts[j].1),
    ensures
        ({
            let steps = setup_steps(scratch_id, workspace, mounts);
            let n = mounts.len();
            let place = paths::below(scratch_root(scratch_id), paths::relative(mounts[j].1));
            &&& steps.len() == 33 + 3 * n
            &&& steps[8 + j].op == MountOp::CreateDirAll { path: place }
            &&& is_bind(steps[19 + n + 2 * j], mounts[j].0, place, 20_480)
            &&& is_bind(steps[20 + n + 2 * j], mounts[j].0, place, 20_513)
        }),
{
    let n = mounts.len();
    let root = scratch_root(scratch_id);
    lemma_flag_values();
    lemma_extra_steps(root, mounts);
    vstd::utf8::decode_utf8_encode_utf8(mounts[j].1);
    let first = 19 + n + 2 * j;
    lemma_step_at(scratch_id, workspace, mounts, 8 + j);
    lemma_part(scratch_id, workspace, mounts, 8 + j);
    lemma_step_at(scratch_id, workspace, mounts, first);
    lemma_part(scratch_id, workspace, mounts, first);
    lemma_step_at(scratch_id, workspace, mounts, first + 1);
    lemma_part(scratch_id, workspace, mounts, first + 1);
    assert((2 * j) / 2 == j && (2 * j) % 2 == 0);
    assert((2 * j + 1) / 2 == j && (2 * j + 1) % 2 == 1);
}

/// The workspace is bound to `/workspace` of the sandbox, with whatever is mounted
/// below it, and no step changes that mount.
#[verifier::spinoff_prover]
pub proof fn the_workspace_is_mounted(
    scratch_id: u64,
    workspace: Seq<u8>,
    mounts: Seq<(Seq<u8>, Seq<u8>)>,
)
    ensures
        ({
            let steps = setup_steps(scratch_id, workspace, mounts);
            let step = steps[18 + mounts.len() as int];
            &&& steps.len() == 33 + 3 * mounts.len()
            &&& is_bind(
                step,
                workspace,
                paths::below(scratch_root(scratch_id), "workspace".spec_bytes()),
                20_480,
            )
            &&& step.stage == ChildStage::MountWorkspace
        }),
{
    lemma_flag_values();
    lemma_extra_steps(scratch_root(scratch_id), mounts);
    lemma_step_at(scratch_id, workspace, mounts, 18 + mounts.len() as int);
    lemma_part(scratch_id, workspace, mounts, 18 + mounts.len() as int);
}

/// What the new root is made of, before anything of the host is bound to it: all is
/// cut off from the host (flags 278528), a tmpfs is mounted (flags 6), and the
/// directories are made in it that the rest needs.
#[verifier::spinoff_prover]
pub proof fn the_root_is_a_fresh_tmpfs(
    scratch_id: u64,
    workspace: Seq<u8>,
    mounts: Seq<(Seq<u8>, Seq<u8>)>,
)
    ensures
        ({
            let steps = setup_steps(scratch_id, workspace, mounts);
            let root = scratch_root(scratch_id);
            &&& steps[0].op == MountOp::Mount {
                source: None,
                target: "/".spec_bytes(),
                fstype: None,
                flags: 278_528,
                data: None,
            }
            &&& steps[1].op == MountOp::Mount {
                source: Some("tmpfs".spec_bytes()),
                target: root,
                fstype: Some("tmpfs".spec_bytes()),
                flags: 6,
                data: Some("mode=0755".spec_bytes()),
            }
            &&& makes_dir(steps[2], root, "proc")
            &&& makes_dir(steps[3], root, "tmp")
            &&& makes_dir(steps[4], root, "dev")
            &&& makes_dir(steps[5], root, "dev/pts")
            &&& makes_dir(steps[6], root, "dev/shm")
            &&& makes_dir(steps[7], root, "workspace")
        }),
{
    lemma_flag_values();
    lemma_extra_steps(scratch_root(scratch_id), mounts);
    assert forall|i: int| 0 <= i < 8 implies #[trigger] setup_steps(
        scratch_id,
        workspace,
        mounts,
    )[i] == root_steps(scratch_root(scratch_id))[i] by {
        lemma_step_at(scratch_id, workspace, mounts, i);
        lemma_part(scratch_id, workspace, mounts, i);
    }
}

/// A step makes a directory that everyone can look into, and its owner change.
pub open spec fn makes_dir(step: MountStep<Seq<u8>>, root: Seq<u8>, name: &str) -> bool {
    step.op == MountOp::CreateDir { path: paths::below(root, name.spec_bytes()), mode: 493 }
}

/// A device of the host is bound (flags 4096) to an empty file of the same name, by
/// three steps of which the first has the number `i`, and made read-only (flags 4139).
pub open spec fn binds_device(
    steps: Seq<MountStep<Seq<u8>>>,
    i: int,
    root: Seq<u8>,
    name: &str,
) -> bool {
    let host = paths::below("/dev".spec_bytes(), name.spec_bytes());
    let guest = paths::below(paths::below(root, "dev".spec_bytes()), name.spec_bytes());
    &&& steps[i].op == MountOp::CreateFile { path: guest }
    &&& is_bind(steps[i + 1], host, guest, 4096)
    &&& is_bind(steps[i + 2], host, guest, 4139)
}

/// The sandbox has terminals of its own (flags 11) and three devices: null, zero and
/// urandom.
#[verifier::spinoff_prover]
pub proof fn the_devices_are_there(
    scratch_id: u64,
    workspace: Seq<u8>,
    mounts: Seq<(Seq<u8>, Seq<u8>)>,
)
    ensures
        ({
            let steps = setup_steps(scratch_id, workspace, mounts);
            let root = scratch_root(scratch_id);
            let first = 8 + mounts.len() as int;
            &&& steps[first].op == MountOp::Mount {
                source: Some("devpts".spec_bytes()),
                target: paths::below(root, "dev/pts".spec_bytes()),
                fstype: Some("devpts".spec_bytes()),
                flags: 11,
                data: Some("newinstance,ptmxmode=0666,mode=0620".spec_bytes()),
            }
            &&& binds_device(steps, first + 1, root, "null")
            &&& binds_device(steps, first + 4, root, "zero")
            &&& binds_device(steps, first + 7, root, "urandom")
        }),
{
    let root = scratch_root(scratch_id);
    let steps = setup_steps(scratch_id, workspace, mounts);
    let first = 8 + mounts.len() as int;
    lemma_flag_values();
    lemma_extra_steps(root, mounts);
    assert forall|k: int| 0 <= k < 10 implies #[trigger] steps[first + k] == dev_steps(
        root,
    )[k] by {
        lemma_step_at(scratch_id, workspace, mounts, first + k);
        lemma_part(scratch_id, workspace, mounts, first + k);
    }
    assert(steps[first + 0] == dev_steps(root)[0]);
    lemma_dev_step_at(root, 1);
    lemma_dev_step_at(root, 2);
    lemma_dev_step_at(root, 3);
    lemma_dev_step_at(root, 4);
    lemma_dev_step_at(root, 5);
    lemma_dev_step_at(root, 6);
    lemma_dev_step_at(root, 7);
    lemma_dev_step_at(root, 8);
    lemma_dev_step_at(root, 9);
    assert(steps[first + 1] == dev_steps(root)[1]);
    assert(steps[first + 2] == dev_steps(root)[2]);
    assert(steps[first + 3] == dev_steps(root)[3]);
    assert(steps[first + 4] == dev_steps(root)[4]);
    assert(steps[first + 5] == dev_steps(root)[5]);
    assert(steps[first + 6] == dev_steps(root)[6]);
    assert(steps[first + 7] == dev_steps(root)[7]);
    assert(steps[first + 8] == dev_steps(root)[8]);
    assert(steps[first + 9] == dev_steps(root)[9]);
}

/// A step masks a path of the new root by the stubs that were made for it.
pub open spec fn masks(step: MountStep<Seq<u8>>, root: Seq<u8>, name: &str) -> bool {
    step.op == MountOp::Mask {
        target: paths::below(root, name.spec_bytes()),
        dir_stub: paths::below(root, "tmp/.proc-mask-dir".spec_bytes()),
        file_stub: paths::below(root, "tmp/.proc-mask-file".spec_bytes()),
    }
}

/// `/proc` is mounted read-only (flags 15), and four paths of it are masked, after the
/// stubs for them have been made.
#[verifier::spinoff_prover]
pub proof fn proc_is_masked(
    scratch_id: u64,
    workspace: Seq<u8>,
    mounts: Seq<(Seq<u8>, Seq<u8>)>,
)
    ensures
        ({
            let steps = setup_steps(scratch_id, workspace, mounts);
            let root = scratch_root(scratch_id);
            let first = 19 + 3 * mounts.len() as int;
            &&& steps[first].op == MountOp::Mount {
                source: Some("proc".spec_bytes()),
                target: paths::below(root, "proc".spec_bytes()),
                fstype: Some("proc".spec_bytes()),
                flags: 15,
                data: None,
            }
            &&& steps[first + 1].op == MountOp::CreateDirAll {
                path: paths::below(root, "tmp/.proc-mask-dir".spec_bytes()),
            }
            &&& steps[first + 2].op == MountOp::CreateFile {
                path: paths::below(root, "tmp/.proc-mask-file".spec_bytes()),
            }
            &&& masks(steps[first + 3], root, "proc/sys")
            &&& masks(steps[first + 4], root, "proc/sysrq-trigger")
            &&& masks(steps[first + 5], root, "proc/irq")
            &&& masks(steps[first + 6], root, "proc/acpi")
        }),
{
    let root = scratch_root(scratch_id);
    let steps = setup_steps(scratch_id, workspace, mounts);
    let first = 19 + 3 * mounts.len() as int;
    lemma_flag_values();
    lemma_extra_steps(root, mounts);
    assert forall|k: int| 0 <= k < 7 implies #[trigger] steps[first + k] == proc_steps(
        root,
    )[k] by {
        lemma_step_at(scratch_id, workspace, mounts, first + k);
        lemma_part(scratch_id, workspace, mounts, first + k);
    }
    assert(steps[first + 0] == proc_steps(root)[0]);
    assert(steps[first + 1] == mask_steps(root)[0]);
    assert(steps[first + 2] == mask_steps(root)[1]);
    assert(steps[first + 3] == mask_steps(root)[2]);
    assert(steps[first + 4] == mask_steps(root)[3]);
    assert(steps[first + 5] == mask_steps(root)[4]);
    assert(steps[first + 6] == mask_steps(root)[5]);
}

/// How the new root takes over: the old one is put into a directory of it, from where
/// the scratch directory is removed, and which is then detached and removed itself;
/// and the new root is made read-only (flags 4135).
#[verifier::spinoff_prover]
pub proof fn the_old_root_goes_away(
    scratch_id: u64,
    workspace: Seq<u8>,
    mounts: Seq<(Seq<u8>, Seq<u8>)>,
)
    ensures
        ({
            let steps = setup_steps(scratch_id, workspace, mounts);
            let root = scratch_root(scratch_id);
            let put_old = paths::below(root, ".put_old".spec_bytes());
            let first = 26 + 3 * mounts.len() as int;
            &&& steps[first].op == MountOp::CreateDir { path: put_old, mode: 511 }
            &&& steps[first + 1].op == MountOp::PivotRoot { new_root: root, put_old }
            &&& steps[first + 2].op == MountOp::ChangeDir { path: "/".spec_bytes() }
            &&& steps[first + 3].op matches MountOp::TryRemoveDir { path }
            &&& path == "/.put_old".spec_bytes() + root
            &&& steps[first + 4].op == MountOp::Detach { path: "/.put_old".spec_bytes() }
            &&& steps[first + 5].op == MountOp::RemoveDir { path: "/.put_old".spec_bytes() }
            &&& steps[first + 6].op == MountOp::Mount {
                source: None,
                target: "/".spec_bytes(),
                fstype: None,
                flags: 4135,
                data: None,
            }
            &&& steps.len() == first + 7
        }),
{
    let root = scratch_root(scratch_id);
    let steps = setup_steps(scratch_id, workspace, mounts);
    let first = 26 + 3 * mounts.len() as int;
    lemma_flag_values();
    lemma_extra_steps(root, mounts);
    assert forall|k: int| 0 <= k < 7 implies #[trigger] steps[first + k] == pivot_steps(
        scratch_id,
    )[k] by {
        lemma_step_at(scratch_id, workspace, mounts, first + k);
        lemma_part(scratch_id, workspace, mounts, first + k);
    }
    assert(steps[first + 0] == pivot_steps(scratch_id)[0]);
    assert(steps[first + 1] == pivot_steps(scratch_id)[1]);
    assert(steps[first + 2] == pivot_steps(scratch_id)[2]);
    assert(steps[first + 3] == pivot_steps(scratch_id)[3]);
    assert(steps[first + 4] == pivot_steps(scratch_id)[4]);
    assert(steps[first + 5] == pivot_steps(scratch_id)[5]);
    assert(steps[first + 6] == pivot_steps(scratch_id)[6]);
    lemma_scratch_in_old_root(scratch_id);
}

/// Where the scratch directory is once the old root has been put away.
proof fn lemma_scratch_in_old_root(scratch_id: u64)
    ensures
        paths::below("/.put_old".spec_bytes(), scratch_name(scratch_id))
            == "/.put_old".spec_bytes() + scratch_root(scratch_id),
{
    reveal_strlit("/.put_old");
    is_ascii_spec_bytes("/.put_old");
    reveal_strlit("/");
    is_ascii_spec_bytes("/");
    reveal_strlit("tmp/sandbox-root-");
    is_ascii_spec_bytes("tmp/sandbox-root-");
    let old = "/.put_old".spec_bytes();
    let name = scratch_name(scratch_id);
    assert(old.last() == 100);
    assert("/".spec_bytes() =~= seq![47u8]);
    assert(name[0] == 116);
    assert(paths::below(old, name) == old.push(47) + name);
    assert(old.push(47) + name =~= old + ("/".spec_bytes() + name));
}

/// Only paths that are there are masked, directories by the stub that is one, and
/// everything else by the other: it is bound over the path (flags 4097), and made
/// read-only (flags 4135).
pub proof fn paths_are_masked_by_their_kind(
    target: Seq<u8>,
    dir_stub: Seq<u8>,
    file_stub: Seq<u8>,
    present: bool,
    is_dir: bool,
)
    ensures
        !present ==> masking(target, dir_stub, file_stub, present, is_dir).len() == 0,
        present ==> {
            let ops = masking(target, dir_stub, file_stub, present, is_dir);
            let stub = if is_dir {
                dir_stub
            } else {
                file_stub
            };
            &&& ops.len() == 2
            &&& ops[0] == MountOp::Mount {
                source: Some(stub),
                target,
                fstype: None,
                flags: 4097,
                data: None,
            }
            &&& ops[1] == MountOp::Mount {
                source: Some(stub),
                target,
                fstype: None,
                flags: 4135,
                data: None,
            }
        },
{
    lemma_flag_values();
}

/// Scratch directories lie right below `/tmp`, and their names end with their number,
/// so that different numbers have different ones.
pub proof fn scratch_directories_are_told_apart(id: u64, other: u64)
    ensures
        scratch_root(id).take(18) == "/tmp/sandbox-root-".spec_bytes(),
        files::is_plain_number(scratch_root(id).skip(18)),
        files::value_of_digits(scratch_root(id).skip(18)) == id,
        id != other ==> scratch_root(id) != scratch_root(other),
{
    reveal_strlit("/tmp/sandbox-root-");
    is_ascii_spec_bytes("/tmp/sandbox-root-");
    reveal_strlit("/");
    is_ascii_spec_bytes("/");
    reveal_strlit("tmp/sandbox-root-");
    is_ascii_spec_bytes("tmp/sandbox-root-");
    files::written_numbers_read_back(id as nat, 0);
    files::written_numbers_read_back(other as nat, 0);
    assert(scratch_root(id).take(18) =~= "/tmp/sandbox-root-".spec_bytes());
    assert(scratch_root(id).skip(18) =~= files::number_bytes(id as nat));
    assert(scratch_root(other).skip(18) =~= files::number_bytes(other as nat));
}

/// The number of a scratch directory is the time in nanoseconds, so that different
/// times of the clock have different numbers, until they do not fit 64 bits.
pub proof fn scratch_numbers_tell_the_time(secs: i64, nanos: i64, secs2: i64, nanos2: i64)
    requires
        0 <= secs < 18_000_000_000,
        0 <= nanos < 1_000_000_000,
        0 <= secs2 < 18_000_000_000,
        0 <= nanos2 < 1_000_000_000,
    ensures
        scratch_id_of(secs, nanos) / 1_000_000_000 == secs,
        scratch_id_of(secs, nanos) % 1_000_000_000 == nanos,
        scratch_id_of(secs, nanos) == scratch_id_of(secs2, nanos2) ==> secs == secs2 && nanos
            == nanos2,
{
}

/// Lists of steps are taken as they are: as many, in order.
pub proof fn steps_are_taken_as_they_are(
    steps: Seq<MountStep<Vec<u8>>>,
    ops: Seq<MountOp<Vec<u8>>>,
    i: int,
)
    ensures
        steps_view(steps).len() == steps.len(),
        0 <= i < steps.len() ==> steps_view(steps)[i].op == steps[i].op@ && steps_view(
            steps,
        )[i].stage == steps[i].stage,
        ops_view(ops).len() == ops.len(),
        0 <= i < ops.len() ==> ops_view(ops)[i] == ops[i]@,
{
}

/// What is said of an operation is what it holds.
pub proof fn an_operation_is_taken_as_it_is(op: MountOp<Vec<u8>>)
    ensures
        op matches MountOp::Mount { source, target, fstype, flags, data } ==> {
            &&& op@ matches MountOp::Mount { source: s, target: t, fstype: f, flags: g, data: d }
            &&& t == target@
            &&& g == flags
            &&& s is Some <==> source is Some
            &&& s is Some ==> s->0 == source->0@
            &&& f is Some <==> fstype is Some
            &&& f is Some ==> f->0 == fstype->0@
            &&& d is Some <==> data is Some
            &&& d is Some ==> d->0 == data->0@
        },
        op matches MountOp::CreateDir { path, mode } ==> op@ == (MountOp::CreateDir {
            path: path@,
            mode,
        }),
        op matches MountOp::CreateDirAll { path } ==> op@ == (MountOp::CreateDirAll {
            path: path@,
        }),
        op matches MountOp::CreateFile { path } ==> op@ == (MountOp::CreateFile { path: path@ }),
        op matches MountOp::Mask { target, dir_stub, file_stub } ==> op@ == (MountOp::Mask {
            target: target@,
            dir_stub: dir_stub@,
            file_stub: file_stub@,
        }),
        op matches MountOp::PivotRoot { new_root, put_old } ==> op@ == (MountOp::PivotRoot {
            new_root: new_root@,
            put_old: put_old@,
        }),
        op matches MountOp::ChangeDir { path } ==> op@ == (MountOp::ChangeDir { path: path@ }),
        op matches MountOp::Detach { path } ==> op@ == (MountOp::Detach { path: path@ }),
        op matches MountOp::TryRemoveDir { path } ==> op@ == (MountOp::TryRemoveDir {
            path: path@,
        }),
        op matches MountOp::RemoveDir { path } ==> op@ == (MountOp::RemoveDir { path: path@ }),
{
}

} // verus!
