//! What is to be run, and within which limits.
use vstd::prelude::*;
use crate::error::SandboxError;
use crate::paths;
use crate::report::TimeSpan;
use crate::wire;

verus! {

/// Complete configuration of one sandboxed run. Paths are byte strings.
pub struct SandboxConfig {
    /// The one directory that is mapped read-write, at `/workspace`.
    pub workspace_path: Vec<u8>,
    /// Hard memory limit.
    pub memory_max_bytes: u64,
    /// Processor time per period, in microseconds.
    pub cpu_quota_us: u64,
    /// Length of a period, in microseconds.
    pub cpu_period_us: u64,
    /// Largest number of processes.
    pub pids_max: u32,
    /// Time after which every process is killed.
    pub ttl: TimeSpan,
    /// Command and arguments; the command is an absolute path in the sandbox.
    pub argv: Vec<String>,
    /// The environment of the process, which inherits nothing else.
    pub env: Vec<(String, String)>,
    /// Further limits of the process itself.
    pub resource_limits: ResourceLimits,
    /// Writable cgroup directory, in which one for the run is made and removed.
    pub cgroup_parent: Vec<u8>,
    /// Read-only mounts as (path on the host, path in the sandbox).
    pub extra_ro_mounts: Vec<(Vec<u8>, Vec<u8>)>,
}

/// Limits of a single process.
#[derive(Clone, Copy, PartialEq, Eq, Structural, Debug)]
pub struct ResourceLimits {
    pub max_open_files: u64,
    pub max_file_size_bytes: u64,
    pub stack_size_bytes: u64,
}

/// Both paths of every mount are absolute.
pub open spec fn mounts_absolute(mounts: Seq<(Seq<u8>, Seq<u8>)>) -> bool {
    forall|i: int|
        0 <= i < mounts.len() ==> paths::is_absolute((#[trigger] mounts[i]).0)
            && paths::is_absolute(mounts[i].1)
}

/// What is wrong with the first mount that is not absolute on both sides.
pub open spec fn mount_fault(mounts: Seq<(Seq<u8>, Seq<u8>)>) -> Option<Seq<char>>
    decreases mounts.len(),
{
    if mounts.len() == 0 {
        None
    } else if !paths::is_absolute(mounts[0].0) {
        Some("extra_ro_mounts: host path must be absolute"@)
    } else if !paths::is_absolute(mounts[0].1) {
        Some("extra_ro_mounts: sandbox path must be absolute"@)
    } else {
        mount_fault(mounts.drop_first())
    }
}

/// There is no fault if and only if all mounts are absolute on both sides.
pub proof fn mount_fault_iff(mounts: Seq<(Seq<u8>, Seq<u8>)>)
    ensures
        mount_fault(mounts) is None <==> mounts_absolute(mounts),
    decreases mounts.len(),
{
    if mounts.len() > 0 {
        let rest = mounts.drop_first();
        mount_fault_iff(rest);
        if mounts_absolute(mounts) {
            assert forall|i: int| 0 <= i < rest.len() implies paths::is_absolute(
                (#[trigger] rest[i]).0,
            ) && paths::is_absolute(rest[i].1) by {
                assert(rest[i] == mounts[i + 1]);
            }
            assert(paths::is_absolute(mounts[0].0) && paths::is_absolute(mounts[0].1));
        }
        if mount_fault(mounts) is None {
            assert forall|i: int| 0 <= i < mounts.len() implies paths::is_absolute(
                (#[trigger] mounts[i]).0,
            ) && paths::is_absolute(mounts[i].1) by {
                if i > 0 {
                    assert(rest[i - 1] == mounts[i]);
                }
            }
        }
    }
}

impl SandboxConfig {
    /// The configuration can be carried out.
    pub open spec fn valid(self) -> bool {
        &&& self.argv@.len() > 0
        &&& 0 < self.cpu_quota_us <= self.cpu_period_us
        &&& self.memory_max_bytes > 0
        &&& self.pids_max > 0
        &&& (self.ttl.secs > 0 || self.ttl.nanos > 0)
        &&& paths::is_absolute(self.workspace_path@)
        &&& paths::is_absolute(self.cgroup_parent@)
        &&& mounts_absolute(wire::pair_views(self.extra_ro_mounts@))
        &&& self.resource_limits.stack_size_bytes > 0
    }

    /// The first thing that is wrong with the configuration.
    pub open spec fn fault(self) -> Option<Seq<char>> {
        if self.argv@.len() == 0 {
            Some("argv must not be empty"@)
        } else if self.cpu_period_us == 0 {
            Some("cpu_period_us must be non-zero"@)
        } else if self.cpu_quota_us == 0 {
            Some("cpu_quota_us must be non-zero"@)
        } else if self.cpu_quota_us > self.cpu_period_us {
            Some("cpu_quota_us must not exceed cpu_period_us (that would mean >100% of one CPU)"@)
        } else if self.memory_max_bytes == 0 {
            Some("memory_max_bytes must be non-zero"@)
        } else if self.pids_max == 0 {
            Some("pids_max must be non-zero"@)
        } else if self.ttl.secs == 0 && self.ttl.nanos == 0 {
            Some("ttl must be non-zero"@)
        } else if !paths::is_absolute(self.workspace_path@) {
            Some("workspace_path must be absolute"@)
        } else if !paths::is_absolute(self.cgroup_parent@) {
            Some("cgroup_parent must be absolute"@)
        } else if mount_fault(wire::pair_views(self.extra_ro_mounts@)) is Some {
            mount_fault(wire::pair_views(self.extra_ro_mounts@))
        } else if self.resource_limits.stack_size_bytes == 0 {
            Some("stack_size_bytes must be non-zero"@)
        } else {
            None
        }
    }

    /// Checks the configuration: a valid one passes, any other is refused with
    /// the first thing that is wrong with it.
    pub fn validate(&self) -> (checked: Result<(), SandboxError>)
        ensures
            checked is Ok <==> self.valid(),
            match checked {
                Ok(_) => self.fault() is None,
                Err(SandboxError::ConfigInvalid(m)) => self.fault() == Some(m@),
                Err(_) => false,
            },
    {
        proof {
            mount_fault_iff(wire::pair_views(self.extra_ro_mounts@));
        }
        if self.argv.len() == 0 {
            return Err(SandboxError::ConfigInvalid("argv must not be empty"));
        }
        if self.cpu_period_us == 0 {
            return Err(SandboxError::ConfigInvalid("cpu_period_us must be non-zero"));
        }
        if self.cpu_quota_us == 0 {
            return Err(SandboxError::ConfigInvalid("cpu_quota_us must be non-zero"));
        }
        if self.cpu_quota_us > self.cpu_period_us {
            return Err(
                SandboxError::ConfigInvalid(
                    "cpu_quota_us must not exceed cpu_period_us (that would mean >100% of one CPU)",
                ),
            );
        }
        if self.memory_max_bytes == 0 {
            return Err(SandboxError::ConfigInvalid("memory_max_bytes must be non-zero"));
        }
        if self.pids_max == 0 {
            return Err(SandboxError::ConfigInvalid("pids_max must be non-zero"));
        }
        if self.ttl.is_zero() {
            return Err(SandboxError::ConfigInvalid("ttl must be non-zero"));
        }
        if !paths::absolute(&self.workspace_path) {
            return Err(SandboxError::ConfigInvalid("workspace_path must be absolute"));
        }
        if !paths::absolute(&self.cgroup_parent) {
            return Err(SandboxError::ConfigInvalid("cgroup_parent must be absolute"));
        }
        let ghost mounts = wire::pair_views(self.extra_ro_mounts@);
        let mut i: usize = 0;
        assert(mounts.skip(0) =~= mounts);
        while i < self.extra_ro_mounts.len()
            invariant
                i <= self.extra_ro_mounts@.len(),
                mounts == wire::pair_views(self.extra_ro_mounts@),
                mount_fault(mounts) == mount_fault(mounts.skip(i as int)),
                mount_fault(mounts) is None <==> mounts_absolute(mounts),
                // Everything that is looked at before the mounts is in order.
                self.argv@.len() > 0,
                0 < self.cpu_quota_us <= self.cpu_period_us,
                self.memory_max_bytes > 0,
                self.pids_max > 0,
                self.ttl.secs > 0 || self.ttl.nanos > 0,
                paths::is_absolute(self.workspace_path@),
                paths::is_absolute(self.cgroup_parent@),
            decreases self.extra_ro_mounts@.len() - i,
        {
            assert(mounts.skip(i as int).drop_first() =~= mounts.skip(i + 1));
            if !paths::absolute(&self.extra_ro_mounts[i].0) {
                return Err(
                    SandboxError::ConfigInvalid("extra_ro_mounts: host path must be absolute"),
                );
            }
            if !paths::absolute(&self.extra_ro_mounts[i].1) {
                return Err(
                    SandboxError::ConfigInvalid("extra_ro_mounts: sandbox path must be absolute"),
                );
            }
            i += 1;
        }
        if self.resource_limits.stack_size_bytes == 0 {
            return Err(SandboxError::ConfigInvalid("stack_size_bytes must be non-zero"));
        }
        Ok(())
    }
}

// ---- Laws ----

/// A configuration is valid exactly if it names a command, grants some memory, some
/// processes, some time and a stack, more processor time than none and not more than
/// one whole processor, and if all its paths begin with a slash.
pub proof fn what_a_valid_configuration_has(c: SandboxConfig)
    ensures
        c.valid() <==> {
            &&& c.argv@.len() >= 1
            &&& c.cpu_quota_us >= 1
            &&& c.cpu_period_us >= c.cpu_quota_us
            &&& c.memory_max_bytes >= 1
            &&& c.pids_max >= 1
            &&& c.ttl.secs + c.ttl.nanos >= 1
            &&& c.resource_limits.stack_size_bytes >= 1
            &&& c.workspace_path@.len() >= 1 && c.workspace_path@[0] == 47
            &&& c.cgroup_parent@.len() >= 1 && c.cgroup_parent@[0] == 47
            &&& forall|i: int|
                0 <= i < c.extra_ro_mounts@.len() ==> {
                    let mount = #[trigger] c.extra_ro_mounts@[i];
                    &&& mount.0@.len() >= 1 && mount.0@[0] == 47
                    &&& mount.1@.len() >= 1 && mount.1@[0] == 47
                }
        },
        c.valid() <==> c.fault() is None,
{
    let mounts = wire::pair_views(c.extra_ro_mounts@);
    mount_fault_iff(mounts);
    if mounts_absolute(mounts) {
        assert forall|i: int| 0 <= i < c.extra_ro_mounts@.len() implies {
            let mount = #[trigger] c.extra_ro_mounts@[i];
            &&& mount.0@.len() >= 1 && mount.0@[0] == 47
            &&& mount.1@.len() >= 1 && mount.1@[0] == 47
        } by {
            assert(paths::is_absolute(mounts[i].0));
        }
    } else {
        let i = choose|i: int|
            0 <= i < mounts.len() && !(paths::is_absolute((#[trigger] mounts[i]).0)
                && paths::is_absolute(mounts[i].1));
        let mount = c.extra_ro_mounts@[i];
        assert(mounts[i] == (mount.0@, mount.1@));
    }
}

/// Of several faults the first one is told, in the order in which they are listed
/// here, and each in its own words.
pub proof fn faults_are_told_in_order(c: SandboxConfig)
    ensures
        ({
            let limits = c.cpu_period_us > 0 && 0 < c.cpu_quota_us <= c.cpu_period_us
                && c.memory_max_bytes > 0 && c.pids_max > 0;
            let time = c.ttl.secs > 0 || c.ttl.nanos > 0;
            let named = c.argv@.len() > 0;
            &&& !named ==> c.fault() == Some("argv must not be empty"@)
            &&& named && c.cpu_period_us == 0 ==> c.fault() == Some(
                "cpu_period_us must be non-zero"@,
            )
            &&& named && c.cpu_period_us > 0 && c.cpu_quota_us == 0 ==> c.fault() == Some(
                "cpu_quota_us must be non-zero"@,
            )
            &&& named && c.cpu_period_us > 0 && c.cpu_quota_us > c.cpu_period_us ==> c.fault()
                == Some(
                "cpu_quota_us must not exceed cpu_period_us (that would mean >100% of one CPU)"@,
            )
            &&& named && 0 < c.cpu_quota_us <= c.cpu_period_us && c.memory_max_bytes == 0
                ==> c.fault() == Some("memory_max_bytes must be non-zero"@)
            &&& named && 0 < c.cpu_quota_us <= c.cpu_period_us && c.memory_max_bytes > 0
                && c.pids_max == 0 ==> c.fault() == Some("pids_max must be non-zero"@)
            &&& named && limits && !time ==> c.fault() == Some("ttl must be non-zero"@)
            &&& named && limits && time && !paths::is_absolute(c.workspace_path@) ==> c.fault()
                == Some("workspace_path must be absolute"@)
            &&& named && limits && time && paths::is_absolute(c.workspace_path@)
                && !paths::is_absolute(c.cgroup_parent@) ==> c.fault() == Some(
                "cgroup_parent must be absolute"@,
            )
            &&& named && limits && time && paths::is_absolute(c.workspace_path@)
                && paths::is_absolute(c.cgroup_parent@) && mounts_absolute(
                wire::pair_views(c.extra_ro_mounts@),
            ) && c.resource_limits.stack_size_bytes == 0 ==> c.fault() == Some(
                "stack_size_bytes must be non-zero"@,
            )
            &&& named && limits && time && paths::is_absolute(c.workspace_path@)
                && paths::is_absolute(c.cgroup_parent@) && !mounts_absolute(
                wire::pair_views(c.extra_ro_mounts@),
            ) ==> c.fault() == mount_fault(wire::pair_views(c.extra_ro_mounts@))
        }),
{
    mount_fault_iff(wire::pair_views(c.extra_ro_mounts@));
}

/// The fault of a list of mounts is that of the first that has one: of its path on
/// the host, or else of its path in the sandbox.
pub proof fn the_first_bad_mount_is_told(mounts: Seq<(Seq<u8>, Seq<u8>)>, k: int)
    requires
        0 <= k < mounts.len(),
        forall|i: int|
            0 <= i < k ==> paths::is_absolute((#[trigger] mounts[i]).0) && paths::is_absolute(
                mounts[i].1,
            ),
    ensures
        !paths::is_absolute(mounts[k].0) ==> mount_fault(mounts) == Some(
            "extra_ro_mounts: host path must be absolute"@,
        ),
        paths::is_absolute(mounts[k].0) && !paths::is_absolute(mounts[k].1) ==> mount_fault(mounts)
            == Some("extra_ro_mounts: sandbox path must be absolute"@),
    decreases k,
{
    if k > 0 {
        let rest = mounts.drop_first();
        assert forall|i: int| 0 <= i < k - 1 implies paths::is_absolute((#[trigger] rest[i]).0)
            && paths::is_absolute(rest[i].1) by {
            assert(rest[i] == mounts[i + 1]);
        }
        assert(paths::is_absolute(mounts[0].0) && paths::is_absolute(mounts[0].1));
        the_first_bad_mount_is_told(rest, k - 1);
        assert(rest[k - 1] == mounts[k]);
    }
}

} // verus!
