//! A job as callers describe it, and the result that they get.
use vstd::prelude::*;
use vstd::string::*;
use crate::config::{ResourceLimits, SandboxConfig};
use crate::paths;
use crate::paths::bytes_of;
use crate::report::{ExecutionReport, TerminationReason, TimeSpan};
use crate::text;
use crate::text::{append_decimal, append_signed, to_text_lossy};
use crate::wire;

verus! {

/// A job.
pub struct Job {
    /// Command and arguments; the command is an absolute path in the sandbox.
    pub argv: Vec<String>,
    /// The environment of the process, which inherits nothing else.
    pub env: Vec<(String, String)>,
    /// The directory of the host that is mapped read-write, at `/workspace`.
    pub workspace: String,
    /// Writable cgroup directory.
    pub cgroup_parent: String,
    /// Memory limit in mebibytes.
    pub memory_mb: u64,
    /// Percentage of one processor, from 1 to 100.
    pub cpu_pct: u64,
    /// Time limit in seconds.
    pub timeout_secs: u64,
    /// Largest number of processes.
    pub pids_max: u32,
    /// Read-only mounts as (path on the host, path in the sandbox).
    pub extra_ro_mounts: Vec<(String, String)>,
}

/// Memory limit of a job that states none.
pub fn default_memory_mb() -> (mb: u64)
    ensures
        mb == 128,
{
    128
}

/// Percentage of a job that states none.
pub fn default_cpu_pct() -> (pct: u64)
    ensures
        pct == 50,
{
    50
}

/// Time limit of a job that states none.
pub fn default_timeout_secs() -> (secs: u64)
    ensures
        secs == 10,
{
    10
}

/// Largest number of processes of a job that states none.
pub fn default_pids_max() -> (pids: u32)
    ensures
        pids == 64,
{
    64
}

// ---- From a job to a configuration ----

/// The period in which a job gets its share of processor time, in microseconds.
pub const PERIOD_US: u64 = 100_000;

/// A mebibyte.
pub const MIB: u64 = 1_048_576;

/// A percentage, brought into the range from 1 to 100.
pub open spec fn clamped_pct(pct: u64) -> u64 {
    if pct < 1 {
        1
    } else if pct > 100 {
        100
    } else {
        pct
    }
}

/// The processor time per period for a percentage.
pub open spec fn quota_of(pct: u64) -> int {
    clamped_pct(pct) * PERIOD_US / 100
}

/// The processor time per period for a percentage.
pub fn cpu_quota_us(pct: u64) -> (quota: u64)
    ensures
        quota == quota_of(pct),
{
    let clamped: u64 = if pct < 1 {
        1
    } else if pct > 100 {
        100
    } else {
        pct
    };
    clamped * PERIOD_US / 100
}

/// The paths of a list of mounts as bytes.
pub open spec fn mount_bytes(mounts: Seq<(String, String)>) -> Seq<(Seq<u8>, Seq<u8>)> {
    Seq::new(
        mounts.len(),
        |i: int|
            (vstd::utf8::encode_utf8(mounts[i].0@), vstd::utf8::encode_utf8(mounts[i].1@)),
    )
}

fn mounts_of(mounts: &Vec<(String, String)>) -> (list: Vec<(Vec<u8>, Vec<u8>)>)
    ensures
        wire::pair_views(list@) == mount_bytes(mounts@),
{
    let mut list: Vec<(Vec<u8>, Vec<u8>)> = Vec::new();
    let mut i: usize = 0;
    while i < mounts.len()
        invariant
            i <= mounts@.len(),
            list@.len() == i,
            forall|j: int|
                0 <= j < i ==> (#[trigger] list@[j]).0@ == mount_bytes(mounts@)[j].0
                    && list@[j].1@ == mount_bytes(mounts@)[j].1,
        decreases mounts@.len() - i,
    {
        list.push((bytes_of(mounts[i].0.as_str()), bytes_of(mounts[i].1.as_str())));
        i += 1;
    }
    assert(wire::pair_views(list@) =~= mount_bytes(mounts@));
    list
}

/// The configuration is that of the job.
pub open spec fn is_config_of(config: SandboxConfig, job: Job) -> bool {
    &&& config.workspace_path@ == vstd::utf8::encode_utf8(job.workspace@)
    &&& config.memory_max_bytes == job.memory_mb * MIB
    &&& config.cpu_quota_us == quota_of(job.cpu_pct)
    &&& config.cpu_period_us == PERIOD_US
    &&& config.pids_max == job.pids_max
    &&& config.ttl == TimeSpan { secs: job.timeout_secs, nanos: 0 }
    &&& config.argv == job.argv
    &&& config.env == job.env
    &&& config.resource_limits == ResourceLimits {
        max_open_files: 256,
        max_file_size_bytes: 67_108_864,
        stack_size_bytes: 8_388_608,
    }
    &&& config.cgroup_parent@ == vstd::utf8::encode_utf8(job.cgroup_parent@)
    &&& wire::pair_views(config.extra_ro_mounts@) == mount_bytes(job.extra_ro_mounts@)
}

/// The configuration of a job.
pub fn job_config(job: Job) -> (config: SandboxConfig)
    requires
        job.memory_mb * MIB <= u64::MAX,
    ensures
        is_config_of(config, job),
        config.ttl.wf(),
{
    let memory_max_bytes: u64 = job.memory_mb * MIB;
    SandboxConfig {
        workspace_path: bytes_of(job.workspace.as_str()),
        memory_max_bytes,
        cpu_quota_us: cpu_quota_us(job.cpu_pct),
        cpu_period_us: PERIOD_US,
        pids_max: job.pids_max,
        ttl: TimeSpan { secs: job.timeout_secs, nanos: 0 },
        resource_limits: ResourceLimits {
            max_open_files: 256,
            max_file_size_bytes: 64 * MIB,
            stack_size_bytes: 8 * MIB,
        },
        cgroup_parent: bytes_of(job.cgroup_parent.as_str()),
        extra_ro_mounts: mounts_of(&job.extra_ro_mounts),
        argv: job.argv,
        env: job.env,
    }
}

/// Whatever percentage a job states, its share is more than nothing and at most
/// one whole processor.
pub proof fn share_is_one_processor_at_most(pct: u64)
    ensures
        0 < quota_of(pct) <= PERIOD_US,
        1 <= pct <= 100 ==> quota_of(pct) == pct * 1000,
{
}

/// A job can be run if it names a command, if its limits are not zero and if its
/// paths are absolute, and in no other case.
pub proof fn runnable_jobs(config: SandboxConfig, job: Job)
    requires
        is_config_of(config, job),
    ensures
        config.valid() <==> {
            &&& job.argv@.len() > 0
            &&& job.memory_mb > 0
            &&& job.pids_max > 0
            &&& job.timeout_secs > 0
            &&& paths::is_absolute(vstd::utf8::encode_utf8(job.workspace@))
            &&& paths::is_absolute(vstd::utf8::encode_utf8(job.cgroup_parent@))
            &&& crate::config::mounts_absolute(mount_bytes(job.extra_ro_mounts@))
        },
{
    share_is_one_processor_at_most(job.cpu_pct);
}

// ---- From a report to a result ----

/// The result of a job.
pub struct JobResult {
    pub exit_status: i32,
    pub stdout: String,
    pub stderr: String,
    pub wall_time_ms: u64,
    pub peak_memory_bytes: u64,
    pub cpu_time_us: u64,
    /// Why the process stopped, such as `exited(0)`.
    pub termination: String,
    /// The system call that the filter killed for.
    pub seccomp_violation: Option<u32>,
    pub ok: bool,
}

/// A reason in words.
pub open spec fn termination_text(reason: TerminationReason) -> Seq<char> {
    match reason {
        TerminationReason::Exited(code) => "exited("@ + text::signed_decimal(code as int) + ")"@,
        TerminationReason::TimedOut => "timed_out"@,
        TerminationReason::OomKilled => "oom_killed"@,
        TerminationReason::SeccompViolation(n) => "seccomp_violation("@ + text::decimal(n as nat)
            + ")"@,
        TerminationReason::SignalKilled(sig) => "signal_killed("@ + text::signed_decimal(
            sig as int,
        ) + ")"@,
        TerminationReason::CgroupKillFallback => "cgroup_kill_fallback"@,
    }
}

/// A reason in words.
pub fn termination_string(reason: &TerminationReason) -> (s: String)
    ensures
        s@ == termination_text(*reason),
{
    match reason {
        TerminationReason::Exited(code) => {
            let mut s = String::from_str("exited(");
            append_signed(&mut s, *code);
            s.append(")");
            s
        },
        TerminationReason::TimedOut => String::from_str("timed_out"),
        TerminationReason::OomKilled => String::from_str("oom_killed"),
        TerminationReason::SeccompViolation(n) => {
            let mut s = String::from_str("seccomp_violation(");
            append_decimal(&mut s, *n as u64);
            s.append(")");
            s
        },
        TerminationReason::SignalKilled(sig) => {
            let mut s = String::from_str("signal_killed(");
            append_signed(&mut s, *sig);
            s.append(")");
            s
        },
        TerminationReason::CgroupKillFallback => String::from_str("cgroup_kill_fallback"),
    }
}

/// The result is that of the report, with the given texts for the two streams.
pub open spec fn is_result_of(
    result: JobResult,
    report: ExecutionReport,
    stdout: Seq<char>,
    stderr: Seq<char>,
) -> bool {
    &&& result.exit_status == report.exit_status
    &&& result.stdout@ == stdout
    &&& result.stderr@ == stderr
    &&& result.wall_time_ms == report.wall_time.millis()
    &&& result.peak_memory_bytes == report.peak_memory_bytes
    &&& result.cpu_time_us == report.cpu_time_us
    &&& result.termination@ == termination_text(report.termination_reason)
    &&& result.seccomp_violation == report.seccomp_violation
    &&& result.ok
}

/// The result of a job from its report and the texts of the two streams.
pub fn result_with_texts(report: &ExecutionReport, stdout: String, stderr: String) -> (result:
    JobResult)
    ensures
        is_result_of(result, *report, stdout@, stderr@),
{
    JobResult {
        exit_status: report.exit_status,
        stdout,
        stderr,
        wall_time_ms: report.wall_time.as_millis_u64(),
        peak_memory_bytes: report.peak_memory_bytes,
        cpu_time_us: report.cpu_time_us,
        termination: termination_string(&report.termination_reason),
        seccomp_violation: report.seccomp_violation,
        ok: true,
    }
}

/// The result is that of the report: with the texts that its streams read as, which is
/// what they are where they are valid UTF-8.
pub open spec fn is_job_result(result: JobResult, report: ExecutionReport) -> bool {
    &&& is_result_of(
        result,
        report,
        text::lossy_text(report.stdout_bytes@),
        text::lossy_text(report.stderr_bytes@),
    )
    &&& vstd::utf8::valid_utf8(report.stdout_bytes@) ==> result.stdout@
        == vstd::utf8::decode_utf8(report.stdout_bytes@)
    &&& vstd::utf8::valid_utf8(report.stderr_bytes@) ==> result.stderr@
        == vstd::utf8::decode_utf8(report.stderr_bytes@)
}

/// The result of a job from its report. Output that is valid UTF-8 comes through as
/// it is; in any other what is no text is replaced.
pub fn job_result(report: &ExecutionReport) -> (result: JobResult)
    ensures
        is_job_result(result, *report),
{
    let stdout = to_text_lossy(report.stdout_bytes.as_slice());
    let stderr = to_text_lossy(report.stderr_bytes.as_slice());
    result_with_texts(report, stdout, stderr)
}

// ---- Laws ----

/// The configuration of a job has what the job asks for: its arguments and variables,
/// its memory in bytes, its time in seconds, its processes, its part of the processor
/// in units of a hundredth, and its paths; and it has the limits that every job has.
pub proof fn jobs_get_what_they_ask_for(config: SandboxConfig, job: Job, i: int)
    requires
        is_config_of(config, job),
    ensures
        config.argv == job.argv,
        config.env == job.env,
        config.memory_max_bytes == job.memory_mb * 1_048_576,
        config.ttl.secs == job.timeout_secs && config.ttl.nanos == 0,
        config.pids_max == job.pids_max,
        config.cpu_period_us == 100_000,
        1 <= job.cpu_pct <= 100 ==> config.cpu_quota_us * 100 == config.cpu_period_us * job.cpu_pct,
        job.cpu_pct > 100 ==> config.cpu_quota_us == 100_000,
        job.cpu_pct == 0 ==> config.cpu_quota_us == 1_000,
        config.resource_limits.max_open_files == 256,
        config.resource_limits.max_file_size_bytes == 64 * 1_048_576,
        config.resource_limits.stack_size_bytes == 8 * 1_048_576,
        config.workspace_path@ == vstd::utf8::encode_utf8(job.workspace@),
        config.cgroup_parent@ == vstd::utf8::encode_utf8(job.cgroup_parent@),
        config.extra_ro_mounts@.len() == job.extra_ro_mounts@.len(),
        0 <= i < job.extra_ro_mounts@.len() ==> {
            &&& config.extra_ro_mounts@[i].0@ == vstd::utf8::encode_utf8(
                job.extra_ro_mounts@[i].0@,
            )
            &&& config.extra_ro_mounts@[i].1@ == vstd::utf8::encode_utf8(
                job.extra_ro_mounts@[i].1@,
            )
        },
{
    let list = wire::pair_views(config.extra_ro_mounts@);
    assert(list.len() == config.extra_ro_mounts@.len());
    if 0 <= i < job.extra_ro_mounts@.len() {
        assert(list[i] == (config.extra_ro_mounts@[i].0@, config.extra_ro_mounts@[i].1@));
        assert(mount_bytes(job.extra_ro_mounts@)[i] == list[i]);
    }
}

/// The number between the brackets of a reason in words is that of the reason.
pub proof fn reasons_read_back(reason: TerminationReason)
    ensures
        ({
            let t = termination_text(reason);
            match reason {
                TerminationReason::Exited(code) => {
                    &&& t.take(7) == "exited("@
                    &&& t.last() == ')'
                    &&& text::signed_number(t.subrange(7, t.len() - 1)) == Some(code as int)
                },
                TerminationReason::SignalKilled(signal) => {
                    &&& t.take(14) == "signal_killed("@
                    &&& t.last() == ')'
                    &&& text::signed_number(t.subrange(14, t.len() - 1)) == Some(signal as int)
                },
                TerminationReason::SeccompViolation(nr) => {
                    &&& t.take(18) == "seccomp_violation("@
                    &&& t.last() == ')'
                    &&& text::unsigned_number(t.subrange(18, t.len() - 1)) == Some(nr as nat)
                },
                TerminationReason::TimedOut => t == "timed_out"@,
                TerminationReason::OomKilled => t == "oom_killed"@,
                TerminationReason::CgroupKillFallback => t == "cgroup_kill_fallback"@,
            }
        }),
{
    reveal_strlit("exited(");
    reveal_strlit("signal_killed(");
    reveal_strlit("seccomp_violation(");
    reveal_strlit(")");
    let t = termination_text(reason);
    match reason {
        TerminationReason::Exited(code) => {
            text::signed_decimal_reads_back(code as int);
            assert(t.take(7) =~= "exited("@);
            assert(t.subrange(7, t.len() - 1) =~= text::signed_decimal(code as int));
        },
        TerminationReason::SignalKilled(signal) => {
            text::signed_decimal_reads_back(signal as int);
            assert(t.take(14) =~= "signal_killed("@);
            assert(t.subrange(14, t.len() - 1) =~= text::signed_decimal(signal as int));
        },
        TerminationReason::SeccompViolation(nr) => {
            text::decimal_reads_back(nr as nat);
            assert(text::is_digit(text::decimal(nr as nat)[0]));
            assert(t.take(18) =~= "seccomp_violation("@);
            assert(t.subrange(18, t.len() - 1) =~= text::decimal(nr as nat));
        },
        _ => {},
    }
}

/// A result says what the report says, for every reason: the figures and the status
/// are the same, the time is that of the report in full milliseconds, and the streams
/// are the texts, each in its place.
pub proof fn results_say_what_the_report_says(
    result: JobResult,
    report: ExecutionReport,
    stdout: Seq<char>,
    stderr: Seq<char>,
)
    requires
        is_result_of(result, report, stdout, stderr),
        report.wall_time.wf(),
        report.wall_time.as_nanos() < 0x1_0000_0000_0000_0000 * 1_000_000,
    ensures
        result.exit_status == report.exit_status,
        result.stdout@ == stdout,
        result.stderr@ == stderr,
        result.wall_time_ms * 1_000_000 <= report.wall_time.as_nanos() < (result.wall_time_ms + 1)
            * 1_000_000,
        result.peak_memory_bytes == report.peak_memory_bytes,
        result.cpu_time_us == report.cpu_time_us,
        result.seccomp_violation == report.seccomp_violation,
        result.termination@ == termination_text(report.termination_reason),
        result.ok,
{
    crate::report::milliseconds_are_rounded_down(report.wall_time);
}

/// Output that is valid UTF-8 comes through whole: the bytes of the text in the result
/// are those that were put out, each stream in its place.
pub proof fn valid_output_comes_through(result: JobResult, report: ExecutionReport)
    requires
        is_job_result(result, report),
    ensures
        vstd::utf8::valid_utf8(report.stdout_bytes@) ==> vstd::utf8::encode_utf8(result.stdout@)
            == report.stdout_bytes@,
        vstd::utf8::valid_utf8(report.stderr_bytes@) ==> vstd::utf8::encode_utf8(result.stderr@)
            == report.stderr_bytes@,
        result.stdout@ == text::lossy_text(report.stdout_bytes@),
        result.stderr@ == text::lossy_text(report.stderr_bytes@),
        result.ok,
{
    if vstd::utf8::valid_utf8(report.stdout_bytes@) {
        vstd::utf8::decode_utf8_encode_utf8(report.stdout_bytes@);
    }
    if vstd::utf8::valid_utf8(report.stderr_bytes@) {
        vstd::utf8::decode_utf8_encode_utf8(report.stderr_bytes@);
    }
}

} // verus!
