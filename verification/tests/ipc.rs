use brink::ipc::{
    decode_response, encode_err_response, encode_ok_response, parse_response, SpawnRequest,
};

fn sample() -> SpawnRequest {
    SpawnRequest {
        workspace_path: b"/w".to_vec(),
        extra_ro_mounts: vec![
            (b"/usr".to_vec(), b"/usr".to_vec()),
            (b"/opt/x".to_vec(), b"/x".to_vec()),
        ],
        memory_max_bytes: 0x0102_0304_0506_0708,
        cpu_quota_us: 50_000,
        cpu_period_us: 100_000,
        pids_max: 64,
        ttl_secs: 10,
        ttl_nanos: 5,
        argv: vec![b"/bin/echo".to_vec(), b"hi".to_vec(), vec![]],
        env: vec![b"A=1".to_vec()],
        max_open_files: 256,
        max_file_size_bytes: 1 << 26,
        stack_size_bytes: 1 << 23,
        cgroup_path: b"/sys/fs/cgroup/s".to_vec(),
        host_uid: 1000,
        host_gid: 1001,
    }
}

fn same(a: &SpawnRequest, b: &SpawnRequest) -> bool {
    a.workspace_path == b.workspace_path
        && a.extra_ro_mounts == b.extra_ro_mounts
        && a.memory_max_bytes == b.memory_max_bytes
        && a.cpu_quota_us == b.cpu_quota_us
        && a.cpu_period_us == b.cpu_period_us
        && a.pids_max == b.pids_max
        && a.ttl_secs == b.ttl_secs
        && a.ttl_nanos == b.ttl_nanos
        && a.argv == b.argv
        && a.env == b.env
        && a.max_open_files == b.max_open_files
        && a.max_file_size_bytes == b.max_file_size_bytes
        && a.stack_size_bytes == b.stack_size_bytes
        && a.cgroup_path == b.cgroup_path
        && a.host_uid == b.host_uid
        && a.host_gid == b.host_gid
}

#[test]
fn request_survives_the_wire() {
    let req = sample();
    let bytes = req.serialize();
    assert!(same(&SpawnRequest::deserialize(&bytes).unwrap(), &req));
}

#[test]
fn bytes_behind_a_request_do_not_matter() {
    let req = sample();
    let mut bytes = req.serialize();
    bytes.extend_from_slice(&[1, 2, 3]);
    assert!(same(&SpawnRequest::deserialize(&bytes).unwrap(), &req));
}

#[test]
fn encoding_begins_as_expected() {
    let bytes = sample().serialize();
    // Length and bytes of the workspace, then the number of mounts and the first path.
    assert_eq!(&bytes[..6], &[2, 0, 0, 0, b'/', b'w']);
    assert_eq!(&bytes[6..10], &[2, 0, 0, 0]);
    assert_eq!(&bytes[10..18], &[4, 0, 0, 0, b'/', b'u', b's', b'r']);
    // The memory limit, lowest byte first.
    let at = 10 + 8 + 8 + 10 + 6;
    assert_eq!(&bytes[at..at + 8], &[8, 7, 6, 5, 4, 3, 2, 1]);
    // User and group come last.
    assert_eq!(&bytes[bytes.len() - 8..], &[0xe8, 3, 0, 0, 0xe9, 3, 0, 0]);
}

#[test]
fn no_shortened_request_is_understood() {
    let bytes = sample().serialize();
    for len in 0..bytes.len() {
        assert!(SpawnRequest::deserialize(&bytes[..len]).is_none(), "length {}", len);
    }
}

#[test]
fn zero_byte_in_an_argument_is_refused() {
    let mut req = sample();
    req.argv[1] = b"h\0i".to_vec();
    assert!(SpawnRequest::deserialize(&req.serialize()).is_none());
    let mut req = sample();
    req.env[0] = b"A=\0".to_vec();
    assert!(SpawnRequest::deserialize(&req.serialize()).is_none());
}

#[test]
fn huge_length_is_refused() {
    let mut bytes = sample().serialize();
    bytes[3] = 0xff;
    assert!(SpawnRequest::deserialize(&bytes).is_none());
}

#[test]
fn responses_are_tagged() {
    assert_eq!(encode_ok_response(0x0102_0304), vec![0, 4, 3, 2, 1]);
    assert_eq!(encode_err_response(-1), vec![1, 0xff, 0xff, 0xff, 0xff]);
}

#[test]
fn responses_survive_the_wire() {
    assert_eq!(parse_response(&encode_ok_response(4711)), Some(Ok(4711)));
    assert_eq!(parse_response(&encode_err_response(-7)), Some(Err(-7)));
    assert_eq!(decode_response(&encode_ok_response(4711)), Some(Ok(4711)));
    assert_eq!(decode_response(&encode_err_response(libc::EPERM)), Some(Err(libc::EPERM)));
}

#[test]
fn unknown_error_number_becomes_zero() {
    assert_eq!(decode_response(&encode_err_response(99_999)), Some(Err(0)));
    assert_eq!(parse_response(&encode_err_response(99_999)), Some(Err(99_999)));
}

#[test]
fn odd_responses_are_not_understood() {
    assert_eq!(decode_response(&[]), None);
    assert_eq!(decode_response(&[0, 1, 2, 3]), None);
    assert_eq!(decode_response(&[2, 0, 0, 0, 0]), None);
    assert_eq!(decode_response(&[0, 1, 0, 0, 0, 9]), Some(Ok(1)));
}

#[test]
fn known_error_numbers_are_those_of_the_table() {
    for raw in (-200..=300).chain([i32::MIN, i32::MAX]) {
        let known = (1..=133).contains(&raw) && raw != 41 && raw != 58;
        let want = if known { raw } else { 0 };
        assert_eq!(nix::errno::Errno::from_raw(raw) as i32, want);
        assert_eq!(decode_response(&encode_err_response(raw)), Some(Err(want)));
    }
}
