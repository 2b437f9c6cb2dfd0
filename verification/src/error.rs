//! Errors.
use vstd::prelude::*;
use vstd::string::*;
use crate::text;
use crate::text::{append_decimal, append_signed};

verus! {

/// The error number that the table of known errors has for a raw one. Linux on
/// x86-64 numbers its errors from 1 to 133, with 41 and 58 left out; any other
/// number becomes 0.
pub open spec fn known_errno(raw: i32) -> i32 {
    if 1 <= raw <= 133 && raw != 41 && raw != 58 {
        raw
    } else {
        0
    }
}

/// `nix::errno::Errno::from_raw`: the known error of that number, as a number
/// again. A number that the crate's table for Linux on x86-64 does not list becomes
/// 0, its `UnknownErrno`; every other number stays as it is.
#[verifier::external_body]
pub(crate) fn errno_from_raw(raw: i32) -> (errno: i32)
    ensures
        errno == known_errno(raw),
{
    nix::errno::Errno::from_raw(raw) as i32
}

/// What `nix` prints for the known error of a number.
pub uninterp spec fn errno_text(code: i32) -> Seq<char>;

/// The `Display` of `nix::errno::Errno`, for the known error of a number: its
/// name and its description.
#[verifier::external_body]
pub(crate) fn describe_errno(code: i32) -> (text: String)
    ensures
        text@ == errno_text(code),
{
    format!("{}", nix::errno::Errno::from_raw(code))
}

/// An input or output operation that failed, as the system words it.
#[derive(Debug)]
pub struct IoFailure {
    pub text: String,
}

/// Why a sandboxed run could not be carried out. Error numbers are those of the
/// system, as 32-bit integers.
#[allow(inconsistent_fields)]
#[derive(Debug)]
pub enum SandboxError {
    CgroupCreateFailed(IoFailure),
    /// The parent cgroup cannot be written to.
    CgroupDelegationMissing,
    NamespaceCloneFailed(i32),
    UserNamespaceSetupFailed(i32),
    MountFailed { step: &'static str, source: i32 },
    PivotRootFailed(i32),
    /// The kernel's Landlock version, which is too low.
    LandlockUnsupported(u32),
    LandlockRulesetFailed(i32),
    SeccompLoadFailed(i32),
    PtyOpenFailed(i32),
    ForkServerUnavailable,
    ExecFailed(i32),
    IoTimeout,
    WaitFailed(i32),
    ConfigInvalid(&'static str),
    IpcError(IoFailure),
    CgroupWriteFailed { path: &'static str, source: IoFailure },
    /// The child reported that it could not set itself up.
    ChildSetupFailed { stage: ChildStage, errno: i32 },
    CapabilityDropFailed(i32),
}

/// The stage of the child's setup that failed.
#[derive(Clone, Copy, PartialEq, Eq, Structural, Debug)]
pub enum ChildStage {
    WaitForMapping,
    BreakPropagation,
    BuildRootfs,
    MountDevpts,
    MountProc,
    MountWorkspace,
    MaskProc,
    PivotRoot,
    Landlock,
    CapabilityDrop,
    PtySlaveSetup,
    NoNewPrivs,
    Seccomp,
    Exec,
}

impl ChildStage {
    /// The number that stands for the stage on the error pipe.
    pub open spec fn code(self) -> u8 {
        match self {
            ChildStage::WaitForMapping => 1,
            ChildStage::BreakPropagation => 2,
            ChildStage::BuildRootfs => 3,
            ChildStage::MountDevpts => 4,
            ChildStage::MountProc => 5,
            ChildStage::MountWorkspace => 6,
            ChildStage::MaskProc => 7,
            ChildStage::PivotRoot => 8,
            ChildStage::Landlock => 9,
            ChildStage::CapabilityDrop => 10,
            ChildStage::PtySlaveSetup => 11,
            ChildStage::NoNewPrivs => 12,
            ChildStage::Seccomp => 13,
            ChildStage::Exec => 14,
        }
    }

    /// The name of the stage.
    pub open spec fn name_text(self) -> Seq<char> {
        match self {
            ChildStage::WaitForMapping => "WaitForMapping"@,
            ChildStage::BreakPropagation => "BreakPropagation"@,
            ChildStage::BuildRootfs => "BuildRootfs"@,
            ChildStage::MountDevpts => "MountDevpts"@,
            ChildStage::MountProc => "MountProc"@,
            ChildStage::MountWorkspace => "MountWorkspace"@,
            ChildStage::MaskProc => "MaskProc"@,
            ChildStage::PivotRoot => "PivotRoot"@,
            ChildStage::Landlock => "Landlock"@,
            ChildStage::CapabilityDrop => "CapabilityDrop"@,
            ChildStage::PtySlaveSetup => "PtySlaveSetup"@,
            ChildStage::NoNewPrivs => "NoNewPrivs"@,
            ChildStage::Seccomp => "Seccomp"@,
            ChildStage::Exec => "Exec"@,
        }
    }

    /// The name of the stage.
    pub fn name(self) -> (name: &'static str)
        ensures
            name@ == self.name_text(),
    {
        match self {
            ChildStage::WaitForMapping => "WaitForMapping",
            ChildStage::BreakPropagation => "BreakPropagation",
            ChildStage::BuildRootfs => "BuildRootfs",
            ChildStage::MountDevpts => "MountDevpts",
            ChildStage::MountProc => "MountProc",
            ChildStage::MountWorkspace => "MountWorkspace",
            ChildStage::MaskProc => "MaskProc",
            ChildStage::PivotRoot => "PivotRoot",
            ChildStage::Landlock => "Landlock",
            ChildStage::CapabilityDrop => "CapabilityDrop",
            ChildStage::PtySlaveSetup => "PtySlaveSetup",
            ChildStage::NoNewPrivs => "NoNewPrivs",
            ChildStage::Seccomp => "Seccomp",
            ChildStage::Exec => "Exec",
        }
    }

    /// The number that stands for the stage.
    pub fn to_u8(self) -> (v: u8)
        ensures
            v == self.code(),
    {
        match self {
            ChildStage::WaitForMapping => 1,
            ChildStage::BreakPropagation => 2,
            ChildStage::BuildRootfs => 3,
            ChildStage::MountDevpts => 4,
            ChildStage::MountProc => 5,
            ChildStage::MountWorkspace => 6,
            ChildStage::MaskProc => 7,
            ChildStage::PivotRoot => 8,
            ChildStage::Landlock => 9,
            ChildStage::CapabilityDrop => 10,
            ChildStage::PtySlaveSetup => 11,
            ChildStage::NoNewPrivs => 12,
            ChildStage::Seccomp => 13,
            ChildStage::Exec => 14,
        }
    }

    /// The stage that a number stands for: none below 1 and above 14.
    pub fn from_u8(v: u8) -> (stage: Option<Self>)
        ensures
            stage is Some <==> 1 <= v <= 14,
            stage is Some ==> stage->0.code() == v,
    {
        match v {
            1 => Some(ChildStage::WaitForMapping),
            2 => Some(ChildStage::BreakPropagation),
            3 => Some(ChildStage::BuildRootfs),
            4 => Some(ChildStage::MountDevpts),
            5 => Some(ChildStage::MountProc),
            6 => Some(ChildStage::MountWorkspace),
            7 => Some(ChildStage::MaskProc),
            8 => Some(ChildStage::PivotRoot),
            9 => Some(ChildStage::Landlock),
            10 => Some(ChildStage::CapabilityDrop),
            11 => Some(ChildStage::PtySlaveSetup),
            12 => Some(ChildStage::NoNewPrivs),
            13 => Some(ChildStage::Seccomp),
            14 => Some(ChildStage::Exec),
            _ => None,
        }
    }
}

/// Different stages have different numbers.
pub proof fn stage_codes_differ(a: ChildStage, b: ChildStage)
    ensures
        1 <= a.code() <= 14,
        a.code() == b.code() ==> a == b,
{
}

/// Two strings, one after the other.
fn joined(a: &str, b: &str) -> (s: String)
    ensures
        s@ == a@ + b@,
{
    let mut s = String::from_str(a);
    s.append(b);
    s
}

impl SandboxError {
    /// What is said of the error.
    pub open spec fn message_text(self) -> Seq<char> {
        match self {
            SandboxError::CgroupCreateFailed(e) => "cgroup create failed: "@ + e.text@,
            SandboxError::CgroupDelegationMissing => "cgroup v2 delegation missing: cgroup_parent path is not writable; configure systemd Delegate=yes or grant write access to the subtree"@,
            SandboxError::NamespaceCloneFailed(e) => "clone3(CLONE_NEWUSER|…) failed: "@ + errno_text(e),
            SandboxError::UserNamespaceSetupFailed(e) => "uid/gid mapping write failed: "@ + errno_text(e),
            SandboxError::MountFailed { step, source } => "mount failed at '"@ + step@ + "': "@
                + errno_text(source),
            SandboxError::PivotRootFailed(e) => "pivot_root failed: "@ + errno_text(e),
            SandboxError::LandlockUnsupported(v) => "Landlock ABI version "@ + text::decimal(
                v as nat,
            ) + " is below required minimum 2 (needs Linux 5.19+)"@,
            SandboxError::LandlockRulesetFailed(e) => "Landlock ruleset operation failed: "@ + errno_text(e),
            SandboxError::SeccompLoadFailed(e) => "seccomp filter load failed: "@ + errno_text(e),
            SandboxError::PtyOpenFailed(e) => "PTY open failed: "@ + errno_text(e),
            SandboxError::ForkServerUnavailable => "fork server is unavailable or crashed; was Runtime::init() called?"@,
            SandboxError::ExecFailed(e) => "execve failed: "@ + errno_text(e),
            SandboxError::IoTimeout => "I/O timeout reading from PTY master"@,
            SandboxError::WaitFailed(e) => "waitid(P_PIDFD) failed: "@ + errno_text(e),
            SandboxError::ConfigInvalid(e) => "invalid SandboxConfig: "@ + e@,
            SandboxError::IpcError(e) => "IPC error with fork server: "@ + e.text@,
            SandboxError::CgroupWriteFailed { path, source } => "cgroup write to '"@ + path@
                + "' failed: "@ + source.text@,
            SandboxError::ChildSetupFailed { stage, errno } => "child setup failed at stage "@
                + stage.name_text() + " (errno "@ + text::signed_decimal(errno as int) + ")"@,
            SandboxError::CapabilityDropFailed(e) => "capability drop failed: "@ + errno_text(e),
        }
    }

    /// What is said of the error.
    pub fn message(&self) -> (text: String)
        ensures
            text@ == self.message_text(),
    {
        proof {
            reveal_strlit("");
        }
        match self {
            SandboxError::CgroupCreateFailed(e) => joined("cgroup create failed: ", e.text.as_str()),
            SandboxError::CgroupDelegationMissing => joined("cgroup v2 delegation missing: cgroup_parent path is not writable; configure systemd Delegate=yes or grant write access to the subtree", ""),
            SandboxError::NamespaceCloneFailed(e) => joined("clone3(CLONE_NEWUSER|…) failed: ", describe_errno(*e).as_str()),
            SandboxError::UserNamespaceSetupFailed(e) => joined("uid/gid mapping write failed: ", describe_errno(*e).as_str()),
            SandboxError::MountFailed { step, source } => {
                let mut m = joined("mount failed at '", step);
                m.append("': ");
                m.append(describe_errno(*source).as_str());
                m
            },
            SandboxError::PivotRootFailed(e) => joined("pivot_root failed: ", describe_errno(*e).as_str()),
            SandboxError::LandlockUnsupported(v) => {
                let mut m = joined("Landlock ABI version ", "");
                append_decimal(&mut m, *v as u64);
                m.append(" is below required minimum 2 (needs Linux 5.19+)");
                m
            },
            SandboxError::LandlockRulesetFailed(e) => joined("Landlock ruleset operation failed: ", describe_errno(*e).as_str()),
            SandboxError::SeccompLoadFailed(e) => joined("seccomp filter load failed: ", describe_errno(*e).as_str()),
            SandboxError::PtyOpenFailed(e) => joined("PTY open failed: ", describe_errno(*e).as_str()),
            SandboxError::ForkServerUnavailable => joined("fork server is unavailable or crashed; was Runtime::init() called?", ""),
            SandboxError::ExecFailed(e) => joined("execve failed: ", describe_errno(*e).as_str()),
            SandboxError::IoTimeout => joined("I/O timeout reading from PTY master", ""),
            SandboxError::WaitFailed(e) => joined("waitid(P_PIDFD) failed: ", describe_errno(*e).as_str()),
            SandboxError::ConfigInvalid(e) => joined("invalid SandboxConfig: ", e),
            SandboxError::IpcError(e) => joined("IPC error with fork server: ", e.text.as_str()),
            SandboxError::CgroupWriteFailed { path, source } => {
                let mut m = joined("cgroup write to '", path);
                m.append("' failed: ");
                m.append(source.text.as_str());
                m
            },
            SandboxError::ChildSetupFailed { stage, errno } => {
                let mut m = joined("child setup failed at stage ", stage.name());
                m.append(" (errno ");
                append_signed(&mut m, *errno);
                m.append(")");
                m
            },
            SandboxError::CapabilityDropFailed(e) => joined("capability drop failed: ", describe_errno(*e).as_str()),
        }
    }

    /// The failed operation that is behind the error, for errors that carry one.
    pub open spec fn behind(self) -> Option<IoFailure> {
        match self {
            SandboxError::CgroupCreateFailed(e) => Some(e),
            SandboxError::IpcError(e) => Some(e),
            SandboxError::CgroupWriteFailed { path, source } => Some(source),
            _ => None,
        }
    }

    /// The failed operation that is behind the error, for errors that carry one.
    pub fn source(&self) -> (source: Option<&IoFailure>)
        ensures
            source == match *self {
                SandboxError::CgroupCreateFailed(e) => Some(&e),
                SandboxError::IpcError(e) => Some(&e),
                SandboxError::CgroupWriteFailed { path, source } => Some(&source),
                _ => None,
            },
            source is Some <==> self.behind() is Some,
            source is Some ==> *source->0 == self.behind()->0,
    {
        match self {
            SandboxError::CgroupCreateFailed(e) => Some(e),
            SandboxError::IpcError(e) => Some(e),
            SandboxError::CgroupWriteFailed { path: _, source } => Some(source),
            _ => None,
        }
    }
}

// ---- Laws ----

/// Known error numbers stay what they are, and any other becomes 0.
pub proof fn known_error_numbers_stay(raw: i32)
    ensures
        known_errno(raw) == raw || known_errno(raw) == 0,
        known_errno(raw) != 0 <==> (1 <= raw <= 40 || 42 <= raw <= 57 || 59 <= raw <= 133),
{
}

/// A text ends with another, and more stands before it.
pub open spec fn ends_with(s: Seq<char>, end: Seq<char>) -> bool {
    s.len() > end.len() && s.skip(s.len() - end.len()) == end
}

/// The message of an error tells its cause in full: the words of the system, the text
/// for an error number, the fault of a configuration, or the numbers that belong to
/// it.
pub proof fn messages_tell_the_cause(e: SandboxError)
    ensures
        ({
            let m = e.message_text();
            match e {
                SandboxError::CgroupCreateFailed(f) => ends_with(m, f.text@),
                SandboxError::IpcError(f) => ends_with(m, f.text@),
                SandboxError::CgroupWriteFailed { path, source } => {
                    &&& ends_with(m, source.text@)
                    &&& m.len() == 17 + path@.len() + 10 + source.text@.len()
                    &&& m.subrange(17, 17 + path@.len() as int) == path@
                },
                SandboxError::MountFailed { step, source } => {
                    &&& ends_with(m, errno_text(source))
                    &&& m.len() == 17 + step@.len() + 3 + errno_text(source).len()
                    &&& m.subrange(17, 17 + step@.len() as int) == step@
                },
                SandboxError::NamespaceCloneFailed(n) => ends_with(m, errno_text(n)),
                SandboxError::UserNamespaceSetupFailed(n) => ends_with(m, errno_text(n)),
                SandboxError::PivotRootFailed(n) => ends_with(m, errno_text(n)),
                SandboxError::LandlockRulesetFailed(n) => ends_with(m, errno_text(n)),
                SandboxError::SeccompLoadFailed(n) => ends_with(m, errno_text(n)),
                SandboxError::PtyOpenFailed(n) => ends_with(m, errno_text(n)),
                SandboxError::ExecFailed(n) => ends_with(m, errno_text(n)),
                SandboxError::WaitFailed(n) => ends_with(m, errno_text(n)),
                SandboxError::CapabilityDropFailed(n) => ends_with(m, errno_text(n)),
                SandboxError::ConfigInvalid(fault) => ends_with(m, fault@),
                SandboxError::LandlockUnsupported(v) => {
                    &&& m.len() > 21 + 48
                    &&& text::unsigned_number(m.subrange(21, m.len() - 48)) == Some(v as nat)
                },
                SandboxError::ChildSetupFailed { stage, errno } => {
                    let at = 28 + stage.name_text().len();
                    &&& m.len() > at + 9
                    &&& m.subrange(28, at as int) == stage.name_text()
                    &&& text::signed_number(m.subrange(at as int + 8, m.len() - 1)) == Some(errno as int)
                },
                _ => true,
            }
        }),
{
    let m = e.message_text();
    lemma_literals();
    match e {
        SandboxError::CgroupCreateFailed(f) => assert(m.skip(m.len() - f.text@.len()) =~= f.text@),
        SandboxError::IpcError(f) => assert(m.skip(m.len() - f.text@.len()) =~= f.text@),
        SandboxError::CgroupWriteFailed { path, source } => {
            assert(m.skip(m.len() - source.text@.len()) =~= source.text@);
            assert(m.subrange(17, 17 + path@.len() as int) =~= path@);
        },
        SandboxError::MountFailed { step, source } => {
            assert(m.skip(m.len() - errno_text(source).len()) =~= errno_text(source));
            assert(m.subrange(17, 17 + step@.len() as int) =~= step@);
        },
        SandboxError::NamespaceCloneFailed(n) => lemma_ends_with(m, errno_text(n)),
        SandboxError::UserNamespaceSetupFailed(n) => lemma_ends_with(m, errno_text(n)),
        SandboxError::PivotRootFailed(n) => lemma_ends_with(m, errno_text(n)),
        SandboxError::LandlockRulesetFailed(n) => lemma_ends_with(m, errno_text(n)),
        SandboxError::SeccompLoadFailed(n) => lemma_ends_with(m, errno_text(n)),
        SandboxError::PtyOpenFailed(n) => lemma_ends_with(m, errno_text(n)),
        SandboxError::ExecFailed(n) => lemma_ends_with(m, errno_text(n)),
        SandboxError::WaitFailed(n) => lemma_ends_with(m, errno_text(n)),
        SandboxError::CapabilityDropFailed(n) => lemma_ends_with(m, errno_text(n)),
        SandboxError::ConfigInvalid(fault) => lemma_ends_with(m, fault@),
        SandboxError::LandlockUnsupported(v) => {
            text::decimal_reads_back(v as nat);
            assert(text::is_digit(text::decimal(v as nat)[0]));
            assert(m.subrange(21, m.len() - 48) =~= text::decimal(v as nat));
        },
        SandboxError::ChildSetupFailed { stage, errno } => {
            text::signed_decimal_reads_back(errno as int);
            let name = stage.name_text();
            let digits = text::signed_decimal(errno as int);
            assert(digits.len() > 0);
            let at = 28 + name.len();
            assert(m.subrange(28, at as int) =~= name);
            assert(m.subrange(at as int + 8, m.len() - 1) =~= digits);
        },
        _ => {},
    }
}

proof fn lemma_ends_with(s: Seq<char>, end: Seq<char>)
    requires
        s.len() > end.len(),
        forall|i: int| 0 <= i < end.len() ==> s[s.len() - end.len() + i] == #[trigger] end[i],
    ensures
        ends_with(s, end),
{
    assert(s.skip(s.len() - end.len()) =~= end);
}

proof fn lemma_literals()
    ensures
        "cgroup create failed: "@.len() > 0,
        "IPC error with fork server: "@.len() > 0,
        "cgroup write to '"@.len() == 17,
        "' failed: "@.len() == 10,
        "mount failed at '"@.len() == 17,
        "': "@.len() == 3,
        "clone3(CLONE_NEWUSER|…) failed: "@.len() > 0,
        "uid/gid mapping write failed: "@.len() > 0,
        "pivot_root failed: "@.len() > 0,
        "Landlock ruleset operation failed: "@.len() > 0,
        "seccomp filter load failed: "@.len() > 0,
        "PTY open failed: "@.len() > 0,
        "execve failed: "@.len() > 0,
        "waitid(P_PIDFD) failed: "@.len() > 0,
        "capability drop failed: "@.len() > 0,
        "invalid SandboxConfig: "@.len() > 0,
        "Landlock ABI version "@.len() == 21,
        " is below required minimum 2 (needs Linux 5.19+)"@.len() == 48,
        "child setup failed at stage "@.len() == 28,
        " (errno "@.len() == 8,
        ")"@.len() == 1,
        "fork server is unavailable or crashed; was Runtime::init() called?"@.len() > 0,
        "I/O timeout reading from PTY master"@.len() > 0,
{
    reveal_strlit("cgroup create failed: ");
    reveal_strlit("IPC error with fork server: ");
    reveal_strlit("cgroup write to '");
    reveal_strlit("' failed: ");
    reveal_strlit("mount failed at '");
    reveal_strlit("': ");
    reveal_strlit("clone3(CLONE_NEWUSER|…) failed: ");
    reveal_strlit("uid/gid mapping write failed: ");
    reveal_strlit("pivot_root failed: ");
    reveal_strlit("Landlock ruleset operation failed: ");
    reveal_strlit("seccomp filter load failed: ");
    reveal_strlit("PTY open failed: ");
    reveal_strlit("execve failed: ");
    reveal_strlit("waitid(P_PIDFD) failed: ");
    reveal_strlit("capability drop failed: ");
    reveal_strlit("invalid SandboxConfig: ");
    reveal_strlit("Landlock ABI version ");
    reveal_strlit(" is below required minimum 2 (needs Linux 5.19+)");
    reveal_strlit("child setup failed at stage ");
    reveal_strlit(" (errno ");
    reveal_strlit(")");
    reveal_strlit("fork server is unavailable or crashed; was Runtime::init() called?");
    reveal_strlit("I/O timeout reading from PTY master");
}

/// Where a failed operation is behind an error, the message ends with its words; three
/// kinds of error have one.
pub proof fn failed_operations_are_behind_these_errors(e: SandboxError)
    ensures
        e.behind() is Some <==> e is CgroupCreateFailed || e is IpcError || e is CgroupWriteFailed,
        e.behind() matches Some(failure) ==> ends_with(e.message_text(), failure.text@),
{
    messages_tell_the_cause(e);
}

} // verus!
