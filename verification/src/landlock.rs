//! The Landlock allow-list.
//!
//! Every access to files of the handled kinds is denied but for what the rules
//! grant. Requires version 2 of the kernel's Landlock interface.
use vstd::prelude::*;
use vstd::string::*;
use crate::error::SandboxError;
use crate::paths::{bytes_of, copy};
use crate::wire;

verus! {

/// The lowest version of the kernel interface for which a ruleset is laid down. The
/// ruleset handles shortening files, which the kernel knows from version 3 on: where
/// every right has to be enforced, version 2 fails when the ruleset is put in force.
pub const MIN_ABI_VERSION: u32 = 2;

/// Kinds of access to files.
#[derive(Clone, Copy, PartialEq, Eq, Structural, Debug)]
pub struct FsRights {
    pub read_file: bool,
    pub write_file: bool,
    pub read_dir: bool,
    pub make_reg: bool,
    pub remove_file: bool,
    pub truncate: bool,
    pub make_dir: bool,
    pub make_sym: bool,
}

impl FsRights {
    /// No access that changes anything.
    pub open spec fn read_only(self) -> bool {
        !self.write_file && !self.make_reg && !self.remove_file && !self.truncate && !self.make_dir
            && !self.make_sym
    }

    /// Every kind of access of one is one of the other.
    pub open spec fn within(self, other: FsRights) -> bool {
        &&& self.read_file ==> other.read_file
        &&& self.write_file ==> other.write_file
        &&& self.read_dir ==> other.read_dir
        &&& self.make_reg ==> other.make_reg
        &&& self.remove_file ==> other.remove_file
        &&& self.truncate ==> other.truncate
        &&& self.make_dir ==> other.make_dir
        &&& self.make_sym ==> other.make_sym
    }
}

/// Read, write, list, make, remove and shorten files.
pub open spec fn rw_file_rights() -> FsRights {
    FsRights {
        read_file: true,
        write_file: true,
        read_dir: true,
        make_reg: true,
        remove_file: true,
        truncate: true,
        make_dir: false,
        make_sym: false,
    }
}

/// Read files and list directories.
pub open spec fn ro_dir_rights() -> FsRights {
    FsRights {
        read_file: true,
        write_file: false,
        read_dir: true,
        make_reg: false,
        remove_file: false,
        truncate: false,
        make_dir: false,
        make_sym: false,
    }
}

/// Read and write a device.
pub open spec fn dev_rw_rights() -> FsRights {
    FsRights {
        read_file: true,
        write_file: true,
        read_dir: false,
        make_reg: false,
        remove_file: false,
        truncate: false,
        make_dir: false,
        make_sym: false,
    }
}

/// Read files.
pub open spec fn read_file_right() -> FsRights {
    FsRights {
        read_file: true,
        write_file: false,
        read_dir: false,
        make_reg: false,
        remove_file: false,
        truncate: false,
        make_dir: false,
        make_sym: false,
    }
}

/// Every kind of access that is denied unless a rule grants it.
pub open spec fn handled_rights() -> FsRights {
    FsRights {
        read_file: true,
        write_file: true,
        read_dir: true,
        make_reg: true,
        remove_file: true,
        truncate: true,
        make_dir: true,
        make_sym: true,
    }
}

/// A kernel with a version of the interface knows every one of the rights: that to
/// shorten files from version 3 on, all others from the first.
pub open spec fn enforceable(rights: FsRights, version: u32) -> bool {
    &&& version >= 1
    &&& rights.truncate ==> version >= 3
}

/// Grants rights to everything below a path; `P` holds a byte string.
pub struct PathRule<P> {
    pub path: P,
    pub rights: FsRights,
}

impl View for PathRule<Vec<u8>> {
    type V = PathRule<Seq<u8>>;

    open spec fn view(&self) -> PathRule<Seq<u8>> {
        PathRule { path: self.path@, rights: self.rights }
    }
}

/// What the rules of a list say.
pub open spec fn rules_view(rules: Seq<PathRule<Vec<u8>>>) -> Seq<PathRule<Seq<u8>>> {
    Seq::new(rules.len(), |i: int| rules[i]@)
}

/// The rules that do not depend on the extra mounts.
pub open spec fn base_rules(workspace: Seq<u8>) -> Seq<PathRule<Seq<u8>>> {
    seq![
        PathRule { path: workspace, rights: rw_file_rights() },
        PathRule { path: "/tmp".spec_bytes(), rights: rw_file_rights() },
        PathRule { path: "/dev/null".spec_bytes(), rights: dev_rw_rights() },
        PathRule { path: "/dev/urandom".spec_bytes(), rights: read_file_right() },
        PathRule { path: "/dev/pts".spec_bytes(), rights: dev_rw_rights() },
        PathRule { path: "/proc/self".spec_bytes(), rights: ro_dir_rights() },
    ]
}

/// One rule for each extra mount, on its path in the sandbox.
pub open spec fn extra_rules(mounts: Seq<(Seq<u8>, Seq<u8>)>) -> Seq<PathRule<Seq<u8>>> {
    Seq::new(
        mounts.len(),
        |i: int| PathRule { path: mounts[i].1, rights: ro_dir_rights() },
    )
}

/// All rules.
pub open spec fn all_rules(
    workspace: Seq<u8>,
    mounts: Seq<(Seq<u8>, Seq<u8>)>,
) -> Seq<PathRule<Seq<u8>>> {
    base_rules(workspace) + extra_rules(mounts)
}

/// What is to be put in force: the kinds of access that are handled, and the rules.
pub struct RulesetPlan {
    pub handled: FsRights,
    pub rules: Vec<PathRule<Vec<u8>>>,
}

/// The version that the kernel's answer to the version query gives; 0 if there is
/// no Landlock at all.
pub open spec fn answered_version(answer: i64) -> u32 {
    if answer < 0 {
        0
    } else {
        (answer % 0x1_0000_0000) as u32
    }
}

/// Reads the kernel's answer to the version query; a negative one means that
/// there is no Landlock, which is version 0.
pub fn probe_abi_version(answer: i64) -> (version: Result<u32, SandboxError>)
    ensures
        version == Ok::<u32, SandboxError>(answered_version(answer)),
{
    if answer < 0 {
        return Ok(0);
    }
    let version: u32 = (answer as u64 % 0x1_0000_0000) as u32;
    Ok(version)
}

fn push_rule(rules: &mut Vec<PathRule<Vec<u8>>>, path: Vec<u8>, rights: FsRights)
    ensures
        rules_view(final(rules)@) == rules_view(old(rules)@).push(
            PathRule { path: path@, rights },
        ),
{
    let ghost before = rules@;
    rules.push(PathRule { path, rights });
    assert(rules_view(rules@) =~= rules_view(before).push(PathRule { path: path@, rights }));
}

/// The plan, or the error in its place, that the kernel's answer to the version query
/// leads to.
pub open spec fn is_plan(
    answer: i64,
    workspace: Seq<u8>,
    mounts: Seq<(Seq<u8>, Seq<u8>)>,
    plan: Result<RulesetPlan, SandboxError>,
) -> bool {
    match plan {
        Ok(plan) => answered_version(answer) >= MIN_ABI_VERSION && plan.handled == handled_rights()
            && rules_view(plan.rules@) == all_rules(workspace, mounts),
        Err(e) => answered_version(answer) < MIN_ABI_VERSION && e
            == SandboxError::LandlockUnsupported(answered_version(answer)),
    }
}

/// The ruleset for a workspace and extra mounts, if the kernel's answer to the
/// version query is high enough. The rights are the same for every version, so that
/// no kernel grants more than another: one of version 2, which cannot enforce all of
/// them, has to be refused by whoever puts the ruleset in force.
pub fn apply_ruleset(
    answer: i64,
    workspace: &Vec<u8>,
    extra_ro: &Vec<(Vec<u8>, Vec<u8>)>,
) -> (plan: Result<RulesetPlan, SandboxError>)
    ensures
        is_plan(answer, workspace@, wire::pair_views(extra_ro@), plan),
{
    let version: u32 = match probe_abi_version(answer) {
        Ok(v) => v,
        Err(e) => {
            return Err(e);
        },
    };
    if version < MIN_ABI_VERSION {
        return Err(SandboxError::LandlockUnsupported(version));
    }
    let read = FsRights {
        read_file: true,
        write_file: false,
        read_dir: false,
        make_reg: false,
        remove_file: false,
        truncate: false,
        make_dir: false,
        make_sym: false,
    };
    let dev_rw = FsRights { write_file: true, ..read };
    let ro_dir = FsRights { read_dir: true, ..read };
    let rw_file = FsRights {
        read_file: true,
        write_file: true,
        read_dir: true,
        make_reg: true,
        remove_file: true,
        truncate: true,
        make_dir: false,
        make_sym: false,
    };
    let handled = FsRights { make_dir: true, make_sym: true, ..rw_file };

    let mut rules: Vec<PathRule<Vec<u8>>> = Vec::new();
    push_rule(&mut rules, copy(workspace), rw_file);
    push_rule(&mut rules, bytes_of("/tmp"), rw_file);
    push_rule(&mut rules, bytes_of("/dev/null"), dev_rw);
    push_rule(&mut rules, bytes_of("/dev/urandom"), read);
    push_rule(&mut rules, bytes_of("/dev/pts"), dev_rw);
    // The dynamic linker and language runtimes read here.
    push_rule(&mut rules, bytes_of("/proc/self"), ro_dir);
    assert(rules_view(rules@) =~= base_rules(workspace@));

    let ghost all = wire::pair_views(extra_ro@);
    let mut i: usize = 0;
    assert(rules_view(rules@) =~= base_rules(workspace@) + extra_rules(all.take(0)));
    while i < extra_ro.len()
        invariant
            i <= extra_ro@.len(),
            all == wire::pair_views(extra_ro@),
            ro_dir == ro_dir_rights(),
            rules_view(rules@) == base_rules(workspace@) + extra_rules(all.take(i as int)),
        decreases extra_ro@.len() - i,
    {
        push_rule(&mut rules, copy(&extra_ro[i].1), ro_dir);
        i += 1;
        assert(rules_view(rules@) =~= base_rules(workspace@) + extra_rules(all.take(i as int)));
    }
    assert(all.take(i as int) =~= all);
    Ok(RulesetPlan { handled, rules })
}

/// No rule grants more than is handled; what changes files is granted below the
/// workspace and `/tmp` alone, and writing besides only to `/dev/null` and to
/// terminals; the extra mounts can be read and listed.
pub proof fn rules_grant_little(
    workspace: Seq<u8>,
    mounts: Seq<(Seq<u8>, Seq<u8>)>,
    i: int,
)
    requires
        0 <= i < all_rules(workspace, mounts).len(),
    ensures
        ({
            let rule = all_rules(workspace, mounts)[i];
            &&& rule.rights.within(handled_rights())
            &&& !rule.rights.read_only() ==> rule.path == workspace || rule.path
                == "/tmp".spec_bytes() || (rule.rights == dev_rw_rights() && (rule.path
                == "/dev/null".spec_bytes() || rule.path == "/dev/pts".spec_bytes()))
            &&& i >= 6 ==> rule == (PathRule { path: mounts[i - 6].1, rights: ro_dir_rights() })
        }),
{
    if i < 6 {
        assert(all_rules(workspace, mounts)[i] == base_rules(workspace)[i]);
    }
}

/// Every extra mount is granted: there are six rules and one more for each extra
/// mount, which is on the path that the mount has in the sandbox, to read files and
/// list directories and no more.
pub proof fn every_extra_mount_is_granted(
    workspace: Seq<u8>,
    mounts: Seq<(Seq<u8>, Seq<u8>)>,
    j: int,
)
    requires
        0 <= j < mounts.len(),
    ensures
        all_rules(workspace, mounts).len() == 6 + mounts.len(),
        all_rules(workspace, mounts)[6 + j].path == mounts[j].1,
        all_rules(workspace, mounts)[6 + j].rights == (FsRights {
            read_file: true,
            read_dir: true,
            write_file: false,
            make_reg: false,
            remove_file: false,
            truncate: false,
            make_dir: false,
            make_sym: false,
        }),
        exists|i: int|
            0 <= i < all_rules(workspace, mounts).len() && (#[trigger] all_rules(
                workspace,
                mounts,
            )[i]).path == mounts[j].1,
{
    assert(all_rules(workspace, mounts)[6 + j] == extra_rules(mounts)[j]);
}

/// There are rules on the bytes of a path for all and only these kinds of access.
pub open spec fn grants(
    rules: Seq<PathRule<Seq<u8>>>,
    path: Seq<u8>,
    read_file: bool,
    write_file: bool,
    read_dir: bool,
    change_files: bool,
) -> bool {
    exists|i: int|
        0 <= i < rules.len() && #[trigger] rules[i] == (PathRule {
            path,
            rights: FsRights {
                read_file,
                write_file,
                read_dir,
                make_reg: change_files,
                remove_file: change_files,
                truncate: change_files,
                make_dir: false,
                make_sym: false,
            },
        })
}

/// The workspace and `/tmp` can be read, written, listed and filled with files that
/// can be removed and shortened; `/dev/null` and the terminals can be read and
/// written; `/dev/urandom` can be read; `/proc/self` can be read and listed. No rule
/// lets anything make a directory or a symbolic link, though both are handled, as
/// every other kind of access is.
pub proof fn the_usual_places_are_granted(workspace: Seq<u8>, mounts: Seq<(Seq<u8>, Seq<u8>)>)
    ensures
        ({
            let rules = all_rules(workspace, mounts);
            &&& grants(rules, workspace, true, true, true, true)
            &&& grants(rules, "/tmp".spec_bytes(), true, true, true, true)
            &&& grants(rules, "/dev/null".spec_bytes(), true, true, false, false)
            &&& grants(rules, "/dev/urandom".spec_bytes(), true, false, false, false)
            &&& grants(rules, "/dev/pts".spec_bytes(), true, true, false, false)
            &&& grants(rules, "/proc/self".spec_bytes(), true, false, true, false)
            &&& forall|i: int|
                0 <= i < rules.len() ==> !(#[trigger] rules[i]).rights.make_dir
                    && !rules[i].rights.make_sym
        }),
        handled_rights() == (FsRights {
            read_file: true,
            write_file: true,
            read_dir: true,
            make_reg: true,
            remove_file: true,
            truncate: true,
            make_dir: true,
            make_sym: true,
        }),
{
    let rules = all_rules(workspace, mounts);
    assert(rules[0] == base_rules(workspace)[0]);
    assert(rules[1] == base_rules(workspace)[1]);
    assert(rules[2] == base_rules(workspace)[2]);
    assert(rules[3] == base_rules(workspace)[3]);
    assert(rules[4] == base_rules(workspace)[4]);
    assert(rules[5] == base_rules(workspace)[5]);
}

/// The version is the answer itself, for every answer that is a version at all; there
/// is no Landlock where the answer is negative, and no ruleset below version 2.
pub proof fn versions_are_taken_as_answered(answer: i64)
    ensures
        0 <= answer <= u32::MAX ==> answered_version(answer) == answer,
        answer < 0 ==> answered_version(answer) == 0,
        MIN_ABI_VERSION == 2,
{
}

/// A ruleset can be enforced in full from version 3 of the kernel interface on, and
/// by no earlier one.
pub proof fn rules_are_enforced_from_version_3_on(version: u32)
    ensures
        enforceable(handled_rights(), version) <==> version >= 3,
{
}

/// Lists of rules are taken as they are: as many, in order.
pub proof fn rules_are_taken_as_they_are(rules: Seq<PathRule<Vec<u8>>>, i: int)
    ensures
        rules_view(rules).len() == rules.len(),
        0 <= i < rules.len() ==> rules_view(rules)[i].path == rules[i].path@ && rules_view(
            rules,
        )[i].rights == rules[i].rights,
{
}

/// There is a plan from version 2 on, and below it an error that names the version;
/// a plan handles every kind of access and has a rule for each extra mount, on its
/// path in the sandbox.
pub proof fn plans_are_made_from_version_2_on(
    answer: i64,
    workspace: Seq<u8>,
    mounts: Seq<(Seq<u8>, Seq<u8>)>,
    plan: Result<RulesetPlan, SandboxError>,
    j: int,
)
    requires
        answer <= u32::MAX,
        is_plan(answer, workspace, mounts, plan),
    ensures
        answer >= 2 <==> plan is Ok,
        0 <= answer < 2 ==> (plan matches Err(SandboxError::LandlockUnsupported(v)) && v == answer),
        answer < 0 ==> (plan matches Err(SandboxError::LandlockUnsupported(v)) && v == 0),
        plan matches Ok(p) ==> {
            &&& p.handled == handled_rights()
            &&& p.rules@.len() == 6 + mounts.len()
            &&& p.rules@[0].path@ == workspace
            &&& 0 <= j < mounts.len() ==> {
                let rule = p.rules@[6 + j];
                &&& rule.path@ == mounts[j].1
                &&& rule.rights.read_file && rule.rights.read_dir && rule.rights.read_only()
            }
        },
{
    if plan is Ok {
        let rules = plan->Ok_0.rules@;
        assert(rules_view(rules).len() == rules.len());
        assert(rules_view(rules)[0].path == rules[0].path@);
        if 0 <= j < mounts.len() {
            every_extra_mount_is_granted(workspace, mounts, j);
            assert(rules_view(rules)[6 + j].path == rules[6 + j].path@);
        }
    }
}

} // verus!
