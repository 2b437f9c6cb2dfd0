use brink::config::{ResourceLimits, SandboxConfig};
use brink::error::SandboxError;
use brink::report::TimeSpan;

fn base() -> SandboxConfig {
    SandboxConfig {
        workspace_path: b"/tmp/ws".to_vec(),
        memory_max_bytes: 128 * 1024 * 1024,
        cpu_quota_us: 50_000,
        cpu_period_us: 100_000,
        pids_max: 32,
        ttl: TimeSpan { secs: 5, nanos: 0 },
        argv: vec!["/bin/true".to_string()],
        env: vec![],
        resource_limits: ResourceLimits {
            max_open_files: 64,
            max_file_size_bytes: 16 * 1024 * 1024,
            stack_size_bytes: 8 * 1024 * 1024,
        },
        cgroup_parent: b"/sys/fs/cgroup/user.slice".to_vec(),
        extra_ro_mounts: vec![(b"/bin".to_vec(), b"/bin".to_vec())],
    }
}

fn fault_of(config: &SandboxConfig) -> &'static str {
    match config.validate() {
        Err(SandboxError::ConfigInvalid(m)) => m,
        Err(_) => "another error",
        Ok(()) => "no error",
    }
}

#[test]
fn valid_config_passes() {
    assert!(base().validate().is_ok());
}

#[test]
fn whole_processor_is_allowed() {
    let config = SandboxConfig { cpu_quota_us: 100_000, ..base() };
    assert!(config.validate().is_ok());
}

#[test]
fn nanosecond_ttl_is_allowed() {
    let config = SandboxConfig { ttl: TimeSpan { secs: 0, nanos: 1 }, ..base() };
    assert!(config.validate().is_ok());
}

#[test]
fn every_fault_has_its_message() {
    assert_eq!(fault_of(&SandboxConfig { argv: vec![], ..base() }), "argv must not be empty");
    assert_eq!(
        fault_of(&SandboxConfig { cpu_period_us: 0, ..base() }),
        "cpu_period_us must be non-zero"
    );
    assert_eq!(
        fault_of(&SandboxConfig { cpu_quota_us: 0, ..base() }),
        "cpu_quota_us must be non-zero"
    );
    assert_eq!(
        fault_of(&SandboxConfig { cpu_quota_us: 100_001, ..base() }),
        "cpu_quota_us must not exceed cpu_period_us (that would mean >100% of one CPU)"
    );
    assert_eq!(
        fault_of(&SandboxConfig { memory_max_bytes: 0, ..base() }),
        "memory_max_bytes must be non-zero"
    );
    assert_eq!(fault_of(&SandboxConfig { pids_max: 0, ..base() }), "pids_max must be non-zero");
    assert_eq!(
        fault_of(&SandboxConfig { ttl: TimeSpan { secs: 0, nanos: 0 }, ..base() }),
        "ttl must be non-zero"
    );
    assert_eq!(
        fault_of(&SandboxConfig { workspace_path: b"tmp".to_vec(), ..base() }),
        "workspace_path must be absolute"
    );
    assert_eq!(
        fault_of(&SandboxConfig { cgroup_parent: vec![], ..base() }),
        "cgroup_parent must be absolute"
    );
    assert_eq!(
        fault_of(&SandboxConfig {
            extra_ro_mounts: vec![(b"bin".to_vec(), b"/bin".to_vec())],
            ..base()
        }),
        "extra_ro_mounts: host path must be absolute"
    );
    assert_eq!(
        fault_of(&SandboxConfig {
            extra_ro_mounts: vec![
                (b"/bin".to_vec(), b"/bin".to_vec()),
                (b"/lib".to_vec(), b"lib".to_vec()),
            ],
            ..base()
        }),
        "extra_ro_mounts: sandbox path must be absolute"
    );
    let no_stack = ResourceLimits { stack_size_bytes: 0, ..base().resource_limits };
    assert_eq!(
        fault_of(&SandboxConfig { resource_limits: no_stack, ..base() }),
        "stack_size_bytes must be non-zero"
    );
}

#[test]
fn first_fault_is_reported() {
    let config = SandboxConfig { argv: vec![], pids_max: 0, memory_max_bytes: 0, ..base() };
    assert_eq!(fault_of(&config), "argv must not be empty");
}
