//! From a configuration to the request that is sent to the fork server.
use vstd::prelude::*;
use vstd::string::*;
use crate::config::SandboxConfig;
use crate::error::SandboxError;
use crate::ipc;
use crate::ipc::{SpawnRequest, SpawnRequestView};
use crate::paths::{bytes_of, copy, copy_pairs};
use crate::wire;
use crate::wire::{c_string_ok, push_raw};

verus! {

/// The arguments as bytes.
pub open spec fn argv_bytes(argv: Seq<String>) -> Seq<Seq<u8>> {
    Seq::new(argv.len(), |i: int| vstd::utf8::encode_utf8(argv[i]@))
}

/// A variable of the environment as bytes: `KEY=VALUE`.
pub open spec fn env_entry(key: Seq<char>, value: Seq<char>) -> Seq<u8> {
    vstd::utf8::encode_utf8(key) + "=".spec_bytes() + vstd::utf8::encode_utf8(value)
}

/// The environment as bytes.
pub open spec fn env_bytes(env: Seq<(String, String)>) -> Seq<Seq<u8>> {
    Seq::new(env.len(), |i: int| env_entry(env[i].0@, env[i].1@))
}

/// No string of a list holds a zero byte.
pub open spec fn all_c_strings(list: Seq<Seq<u8>>) -> bool {
    forall|i: int| 0 <= i < list.len() ==> wire::is_c_string(#[trigger] list[i])
}

/// The arguments for `execve`.
pub fn build_argv(config: &SandboxConfig) -> (argv: Result<Vec<Vec<u8>>, SandboxError>)
    ensures
        match argv {
            Ok(list) => all_c_strings(argv_bytes(config.argv@)) && wire::views(list@)
                == argv_bytes(config.argv@),
            Err(e) => !all_c_strings(argv_bytes(config.argv@)) && e == SandboxError::ConfigInvalid(
                "argv contains null byte",
            ),
        },
{
    let ghost wanted = argv_bytes(config.argv@);
    let mut list: Vec<Vec<u8>> = Vec::new();
    let mut i: usize = 0;
    while i < config.argv.len()
        invariant
            i <= config.argv@.len(),
            wanted == argv_bytes(config.argv@),
            list@.len() == i,
            forall|j: int|
                0 <= j < i ==> (#[trigger] list@[j])@ == wanted[j] && wire::is_c_string(wanted[j]),
        decreases config.argv@.len() - i,
    {
        let bytes = bytes_of(config.argv[i].as_str());
        assert(bytes@ == wanted[i as int]);
        if !c_string_ok(bytes.as_slice()) {
            return Err(SandboxError::ConfigInvalid("argv contains null byte"));
        }
        list.push(bytes);
        i += 1;
    }
    assert(wire::views(list@) =~= wanted);
    assert forall|j: int| 0 <= j < wanted.len() implies wire::is_c_string(#[trigger] wanted[j]) by {
        assert(list@[j]@ == wanted[j]);
    }
    Ok(list)
}

/// The environment for `execve`: what the configuration lists, and nothing else.
pub fn build_env(config: &SandboxConfig) -> (env: Result<Vec<Vec<u8>>, SandboxError>)
    ensures
        match env {
            Ok(list) => all_c_strings(env_bytes(config.env@)) && wire::views(list@) == env_bytes(
                config.env@,
            ),
            Err(e) => !all_c_strings(env_bytes(config.env@)) && e == SandboxError::ConfigInvalid(
                "env key or value contains null byte",
            ),
        },
{
    let ghost wanted = env_bytes(config.env@);
    let mut list: Vec<Vec<u8>> = Vec::new();
    let mut i: usize = 0;
    while i < config.env.len()
        invariant
            i <= config.env@.len(),
            wanted == env_bytes(config.env@),
            list@.len() == i,
            forall|j: int|
                0 <= j < i ==> (#[trigger] list@[j])@ == wanted[j] && wire::is_c_string(wanted[j]),
        decreases config.env@.len() - i,
    {
        let mut bytes = bytes_of(config.env[i].0.as_str());
        push_raw(&mut bytes, "=".as_bytes());
        push_raw(&mut bytes, config.env[i].1.as_str().as_bytes());
        assert(bytes@ == wanted[i as int]);
        if !c_string_ok(bytes.as_slice()) {
            return Err(SandboxError::ConfigInvalid("env key or value contains null byte"));
        }
        list.push(bytes);
        i += 1;
    }
    assert(wire::views(list@) =~= wanted);
    assert forall|j: int| 0 <= j < wanted.len() implies wire::is_c_string(#[trigger] wanted[j]) by {
        assert(list@[j]@ == wanted[j]);
    }
    Ok(list)
}

/// The request for a configuration.
pub open spec fn request_of(
    config: SandboxConfig,
    cgroup_path: Seq<u8>,
    host_uid: u32,
    host_gid: u32,
) -> SpawnRequestView {
    SpawnRequestView {
        workspace_path: config.workspace_path@,
        extra_ro_mounts: wire::pair_views(config.extra_ro_mounts@),
        memory_max_bytes: config.memory_max_bytes,
        cpu_quota_us: config.cpu_quota_us,
        cpu_period_us: config.cpu_period_us,
        pids_max: config.pids_max,
        ttl_secs: config.ttl.secs,
        ttl_nanos: config.ttl.nanos,
        argv: argv_bytes(config.argv@),
        env: env_bytes(config.env@),
        max_open_files: config.resource_limits.max_open_files,
        max_file_size_bytes: config.resource_limits.max_file_size_bytes,
        stack_size_bytes: config.resource_limits.stack_size_bytes,
        cgroup_path,
        host_uid,
        host_gid,
    }
}

/// Builds the request for a configuration. It fails for a zero byte in an argument
/// or, if there is none, in the environment.
pub fn build_request(
    config: &SandboxConfig,
    cgroup_path: &Vec<u8>,
    host_uid: u32,
    host_gid: u32,
) -> (req: Result<SpawnRequest, SandboxError>)
    ensures
        ({
            let argv_ok = all_c_strings(argv_bytes(config.argv@));
            let env_ok = all_c_strings(env_bytes(config.env@));
            match req {
                Ok(req) => argv_ok && env_ok && req@ == request_of(
                    *config,
                    cgroup_path@,
                    host_uid,
                    host_gid,
                ),
                Err(e) => if !argv_ok {
                    e == SandboxError::ConfigInvalid("argv contains null byte")
                } else {
                    !env_ok && e == SandboxError::ConfigInvalid(
                        "env key or value contains null byte",
                    )
                },
            }
        }),
{
    let argv = match build_argv(config) {
        Ok(list) => list,
        Err(e) => {
            return Err(e);
        },
    };
    let env = match build_env(config) {
        Ok(list) => list,
        Err(e) => {
            return Err(e);
        },
    };
    Ok(
        SpawnRequest {
            workspace_path: copy(&config.workspace_path),
            extra_ro_mounts: copy_pairs(&config.extra_ro_mounts),
            memory_max_bytes: config.memory_max_bytes,
            cpu_quota_us: config.cpu_quota_us,
            cpu_period_us: config.cpu_period_us,
            pids_max: config.pids_max,
            ttl_secs: config.ttl.secs,
            ttl_nanos: config.ttl.nanos,
            argv,
            env,
            max_open_files: config.resource_limits.max_open_files,
            max_file_size_bytes: config.resource_limits.max_file_size_bytes,
            stack_size_bytes: config.resource_limits.stack_size_bytes,
            cgroup_path: copy(cgroup_path),
            host_uid,
            host_gid,
        },
    )
}

/// The lengths of a list fit their 32-bit prefixes.
pub open spec fn short_strings(list: Seq<Seq<u8>>) -> bool {
    &&& list.len() < wire::length_limit()
    &&& forall|i: int| 0 <= i < list.len() ==> (#[trigger] list[i]).len() < wire::length_limit()
}

/// The fork server reads back exactly the request that was built, provided that
/// every length fits its 32-bit prefix.
pub proof fn built_request_reads_back(
    config: SandboxConfig,
    cgroup_path: Seq<u8>,
    host_uid: u32,
    host_gid: u32,
)
    requires
        all_c_strings(argv_bytes(config.argv@)),
        all_c_strings(env_bytes(config.env@)),
        short_strings(argv_bytes(config.argv@)),
        short_strings(env_bytes(config.env@)),
        ipc::short_pairs(wire::pair_views(config.extra_ro_mounts@)),
        config.workspace_path@.len() < wire::length_limit(),
        cgroup_path.len() < wire::length_limit(),
    ensures
        ({
            let q = request_of(config, cgroup_path, host_uid, host_gid);
            ipc::decoded(q.encoded()) == Some(q)
        }),
{
    let q = request_of(config, cgroup_path, host_uid, host_gid);
    assert(q.encodable());
    ipc::decoding_undoes_encoding(q, Seq::empty());
}

// ---- Laws ----

/// A request says what the configuration says: every argument and every variable, in
/// order, every mount, every limit, and the directory, user and group that it is for.
pub proof fn requests_say_what_the_configuration_says(
    config: SandboxConfig,
    cgroup_path: Seq<u8>,
    host_uid: u32,
    host_gid: u32,
    i: int,
)
    ensures
        ({
            let q = request_of(config, cgroup_path, host_uid, host_gid);
            &&& q.workspace_path == config.workspace_path@
            &&& q.memory_max_bytes == config.memory_max_bytes
            &&& q.cpu_quota_us == config.cpu_quota_us
            &&& q.cpu_period_us == config.cpu_period_us
            &&& q.pids_max == config.pids_max
            &&& q.ttl_secs == config.ttl.secs
            &&& q.ttl_nanos == config.ttl.nanos
            &&& q.max_open_files == config.resource_limits.max_open_files
            &&& q.max_file_size_bytes == config.resource_limits.max_file_size_bytes
            &&& q.stack_size_bytes == config.resource_limits.stack_size_bytes
            &&& q.cgroup_path == cgroup_path
            &&& q.host_uid == host_uid
            &&& q.host_gid == host_gid
            &&& q.argv.len() == config.argv@.len()
            &&& 0 <= i < config.argv@.len() ==> q.argv[i] == vstd::utf8::encode_utf8(
                config.argv@[i]@,
            )
            &&& q.env.len() == config.env@.len()
            &&& 0 <= i < config.env@.len() ==> {
                let key = vstd::utf8::encode_utf8(config.env@[i].0@);
                let value = vstd::utf8::encode_utf8(config.env@[i].1@);
                &&& q.env[i].len() == key.len() + 1 + value.len()
                &&& q.env[i].take(key.len() as int) == key
                &&& q.env[i][key.len() as int] == 61
                &&& q.env[i].skip(key.len() as int + 1) == value
            }
            &&& q.extra_ro_mounts.len() == config.extra_ro_mounts@.len()
            &&& 0 <= i < config.extra_ro_mounts@.len() ==> q.extra_ro_mounts[i] == (
                config.extra_ro_mounts@[i].0@,
                config.extra_ro_mounts@[i].1@,
            )
        }),
{
    if 0 <= i < config.env@.len() {
        let key = vstd::utf8::encode_utf8(config.env@[i].0@);
        let value = vstd::utf8::encode_utf8(config.env@[i].1@);
        reveal_strlit("=");
        is_ascii_spec_bytes("=");
        assert("=".spec_bytes() =~= seq![61u8]);
        let entry = env_entry(config.env@[i].0@, config.env@[i].1@);
        assert(entry.take(key.len() as int) =~= key);
        assert(entry.skip(key.len() as int + 1) =~= value);
    }
}

/// A list can be handed to `execve` exactly if no byte of any of its strings is zero.
pub proof fn lists_hold_no_zero_byte(list: Seq<Seq<u8>>)
    ensures
        all_c_strings(list) <==> forall|i: int, j: int|
            0 <= i < list.len() && 0 <= j < list[i].len() ==> #[trigger] list[i][j] != 0,
{
    if all_c_strings(list) {
        assert forall|i: int, j: int|
            0 <= i < list.len() && 0 <= j < list[i].len() implies #[trigger] list[i][j] != 0 by {
            wire::c_strings_hold_no_zero_byte(list[i]);
            assert(wire::is_c_string(list[i]));
        }
    }
    if forall|i: int, j: int|
        0 <= i < list.len() && 0 <= j < list[i].len() ==> #[trigger] list[i][j] != 0 {
        assert forall|i: int| 0 <= i < list.len() implies wire::is_c_string(#[trigger] list[i]) by {
            wire::c_strings_hold_no_zero_byte(list[i]);
        }
    }
}

} // verus!
