use brink::error::{IoFailure, SandboxError};
use brink::fork_server::{
    accepts, announced_length, client_accepts, fork_outcome, handle_one_request, length_prefix,
    read_spawn_response, request_spawn, spawn_outcome, start_request, start_server, ClientAction,
    ClientEvent, ClientState, Pipe, ServerAction, ServerEvent, ServerState, SpawnResponse, EINVAL,
};
use brink::namespace::CloneResult;
use brink::ipc::{encode_err_response, encode_ok_response, SpawnRequest};

fn request() -> SpawnRequest {
    SpawnRequest {
        workspace_path: b"/home/ws".to_vec(),
        extra_ro_mounts: vec![],
        memory_max_bytes: 1,
        cpu_quota_us: 1,
        cpu_period_us: 1,
        pids_max: 1,
        ttl_secs: 1,
        ttl_nanos: 0,
        argv: vec![b"/bin/true".to_vec()],
        env: vec![],
        max_open_files: 1,
        max_file_size_bytes: 1,
        stack_size_bytes: 1,
        cgroup_path: b"/cg/run".to_vec(),
        host_uid: 1000,
        host_gid: 1001,
    }
}

fn step(state: ServerState, event: ServerEvent) -> (ServerState, ServerAction) {
    assert!(accepts(&state, &event));
    handle_one_request(state, event)
}

fn pipe(read_fd: i32, write_fd: i32) -> Pipe {
    Pipe { read_fd, write_fd }
}

fn made(child_pid: i32) -> CloneResult {
    CloneResult { child_pid, pidfd: 40 }
}

fn writes(action: ServerAction, path: &str, content: &str) -> bool {
    match action {
        ServerAction::WriteMap(write) => {
            write.path == path.as_bytes() && write.content == content.as_bytes()
        }
        _ => false,
    }
}

fn failure() -> IoFailure {
    IoFailure { text: "broken pipe".to_string() }
}

/// A server that has received a request.
fn served() -> ServerState {
    let (state, action) = start_server();
    assert!(matches!(action, ServerAction::ReadPrefix));
    let payload = request().serialize();
    let prefix = (payload.len() as u32).to_le_bytes();
    let (state, action) = step(state, ServerEvent::Prefix(Some(prefix)));
    assert!(
        matches!(action, ServerAction::ReceiveMessage { len } if len as usize == payload.len())
    );
    let (state, action) = step(state, ServerEvent::Message(Some((payload, vec![8, 9]))));
    assert!(matches!(action, ServerAction::OpenEventFd));
    state
}

fn refused_with(action: ServerAction, errno: i32) -> bool {
    match action {
        ServerAction::Refuse { prefix, payload } => {
            prefix == vec![5, 0, 0, 0] && payload == encode_err_response(errno)
        }
        _ => false,
    }
}

#[test]
fn request_leads_to_a_child() {
    let state = served();
    let (state, action) = step(state, ServerEvent::EventFd(Ok(20)));
    assert!(matches!(action, ServerAction::OpenErrorPipe));
    let (state, action) = step(state, ServerEvent::ErrorPipe(Ok(pipe(31, 21))));
    assert!(matches!(action, ServerAction::OpenStderrPipe));
    let (state, action) = step(state, ServerEvent::StderrPipe(Ok(pipe(32, 22))));
    assert!(matches!(action, ServerAction::Clone));
    let (state, action) = step(state, ServerEvent::Cloned(Ok(Some(made(4711)))));
    match action {
        ServerAction::JoinCgroup(write) => {
            assert_eq!(write.path, b"/cg/run/cgroup.procs".to_vec());
            assert_eq!(write.content, b"4711".to_vec());
        }
        _ => panic!("another action"),
    }
    let (state, action) = step(state, ServerEvent::Joined(Ok(())));
    assert!(writes(action, "/proc/4711/setgroups", "deny"));
    let (state, action) = step(state, ServerEvent::MapWritten(Ok(())));
    assert!(writes(action, "/proc/4711/uid_map", "65534 1000 1\n"));
    let (state, action) = step(state, ServerEvent::MapWritten(Ok(())));
    assert!(writes(action, "/proc/4711/gid_map", "65534 1001 1\n"));
    let (state, action) = step(state, ServerEvent::MapWritten(Ok(())));
    assert!(matches!(action, ServerAction::SignalChild { value: 1 }));
    let (state, action) = step(state, ServerEvent::Signalled);
    assert!(matches!(action, ServerAction::SendPrefix(prefix) if prefix == vec![5, 0, 0, 0]));
    let (state, action) = step(state, ServerEvent::PrefixSent(true));
    match action {
        ServerAction::SendReply { payload, fds } => {
            assert_eq!(payload, encode_ok_response(4711));
            // The handle, and the reading ends of the error pipe and of standard error.
            assert_eq!(fds, vec![40, 31, 32]);
        }
        _ => panic!("another action"),
    }
    let (state, action) = step(state, ServerEvent::ReplySent);
    assert!(matches!(state, ServerState::Prefix));
    assert!(matches!(action, ServerAction::ReadPrefix));
}

#[test]
fn child_gets_its_descriptors() {
    let state = served();
    let (state, _) = step(state, ServerEvent::EventFd(Ok(20)));
    let (state, _) = step(state, ServerEvent::ErrorPipe(Ok(pipe(31, 21))));
    let (state, _) = step(state, ServerEvent::StderrPipe(Ok(pipe(32, 22))));
    let (state, action) = step(state, ServerEvent::Cloned(Ok(None)));
    assert!(matches!(state, ServerState::Over));
    match action {
        ServerAction::RunChild { req, fds, error_fd } => {
            assert_eq!(req.argv, vec![b"/bin/true".to_vec()]);
            assert_eq!(fds.sync_read_fd, 20);
            assert_eq!(fds.slave_fd, 9);
            assert_eq!(fds.stderr_write_fd, 22);
            assert_eq!(error_fd, 21);
        }
        _ => panic!("another action"),
    }
}

#[test]
fn every_failure_is_answered() {
    let ways: Vec<Vec<ServerEvent>> = vec![
        vec![ServerEvent::EventFd(Err(24))],
        vec![ServerEvent::EventFd(Ok(20)), ServerEvent::ErrorPipe(Err(24))],
        vec![
            ServerEvent::EventFd(Ok(20)),
            ServerEvent::ErrorPipe(Ok(pipe(31, 21))),
            ServerEvent::StderrPipe(Err(24)),
        ],
        vec![
            ServerEvent::EventFd(Ok(20)),
            ServerEvent::ErrorPipe(Ok(pipe(31, 21))),
            ServerEvent::StderrPipe(Ok(pipe(32, 22))),
            ServerEvent::Cloned(Err(24)),
        ],
        vec![
            ServerEvent::EventFd(Ok(20)),
            ServerEvent::ErrorPipe(Ok(pipe(31, 21))),
            ServerEvent::StderrPipe(Ok(pipe(32, 22))),
            ServerEvent::Cloned(Ok(Some(made(5)))),
            ServerEvent::Joined(Err(24)),
        ],
        vec![
            ServerEvent::EventFd(Ok(20)),
            ServerEvent::ErrorPipe(Ok(pipe(31, 21))),
            ServerEvent::StderrPipe(Ok(pipe(32, 22))),
            ServerEvent::Cloned(Ok(Some(made(5)))),
            ServerEvent::Joined(Ok(())),
            ServerEvent::MapWritten(Ok(())),
            ServerEvent::MapWritten(Err(24)),
        ],
    ];
    for way in ways {
        let mut state = served();
        let mut last = ServerAction::Stop;
        for event in way {
            let (next, action) = step(state, event);
            state = next;
            last = action;
        }
        assert!(refused_with(last, 24));
        let (state, action) = step(state, ServerEvent::RefusalSent);
        assert!(matches!(state, ServerState::Prefix));
        assert!(matches!(action, ServerAction::ReadPrefix));
    }
}

#[test]
fn garbage_is_refused_as_invalid() {
    let (state, _) = start_server();
    let (state, _) = step(state, ServerEvent::Prefix(Some([3, 0, 0, 0])));
    let (state, action) = step(state, ServerEvent::Message(Some((vec![1, 2, 3], vec![8, 9]))));
    assert!(matches!(state, ServerState::Refusal));
    assert!(refused_with(action, EINVAL));
    assert_eq!(EINVAL, libc::EINVAL);
}

#[test]
fn lost_client_stops_the_server() {
    let (state, _) = start_server();
    let (_, action) = step(state, ServerEvent::Prefix(None));
    assert!(matches!(action, ServerAction::Stop));
    let (state, _) = start_server();
    let (state, _) = step(state, ServerEvent::Prefix(Some([0; 4])));
    let (_, action) = step(state, ServerEvent::Message(None));
    assert!(matches!(action, ServerAction::Stop));
    let (state, _) = start_server();
    let (state, _) = step(state, ServerEvent::Prefix(Some([0; 4])));
    let (_, action) = step(state, ServerEvent::Message(Some((vec![], vec![8]))));
    assert!(matches!(action, ServerAction::Stop));
    let child = SpawnResponse { pidfd: 1, err_pipe_rd: 2, stderr_pipe_rd: 3, child_pid: 4 };
    let state = ServerState::ReplyPrefix { child };
    let (_, action) = step(state, ServerEvent::PrefixSent(false));
    assert!(matches!(action, ServerAction::Stop));
}

#[test]
fn events_must_fit_their_state() {
    assert!(!accepts(&ServerState::Prefix, &ServerEvent::Signalled));
    assert!(!accepts(&ServerState::Over, &ServerEvent::Prefix(None)));
    assert!(!client_accepts(&ClientState::Message, &ClientEvent::PrefixSent(Ok(()))));
}

#[test]
fn client_sends_and_receives() {
    let req = request();
    let payload = req.serialize();
    let (state, action) = start_request(&req, 6, 7, true);
    match action {
        ClientAction::SendPrefix(prefix) => {
            assert_eq!(prefix, (payload.len() as u32).to_le_bytes().to_vec());
        }
        _ => panic!("another action"),
    }
    let (state, action) = request_spawn(state, ClientEvent::PrefixSent(Ok(())));
    match action {
        ClientAction::SendMessage { payload: sent, fds } => {
            assert_eq!(sent, payload);
            assert_eq!(fds, vec![6, 7]);
        }
        _ => panic!("another action"),
    }
    let (state, action) = request_spawn(state, ClientEvent::MessageSent(Ok(())));
    assert!(matches!(action, ClientAction::ReadReplyPrefix));
    let (state, action) = request_spawn(state, ClientEvent::ReplyPrefix(Ok([5, 0, 0, 0])));
    assert!(matches!(action, ClientAction::ReceiveReply { len: 5 }));
    let reply = (encode_ok_response(4711), vec![3, 4, 5]);
    let (_, action) = request_spawn(state, ClientEvent::Reply(Ok(reply)));
    match action {
        ClientAction::Finish(Ok(child)) => assert_eq!(
            child,
            SpawnResponse { pidfd: 3, err_pipe_rd: 4, stderr_pipe_rd: 5, child_pid: 4711 }
        ),
        _ => panic!("no child"),
    }
}

#[test]
fn client_gives_up_on_failures() {
    let (_, action) = start_request(&request(), 6, 7, false);
    assert!(matches!(
        action,
        ClientAction::Finish(Err(SandboxError::ForkServerUnavailable))
    ));
    for (state, event) in [
        (
            ClientState::Prefix { payload: vec![], master_fd: 6, slave_fd: 7 },
            ClientEvent::PrefixSent(Err(failure())),
        ),
        (ClientState::Message, ClientEvent::MessageSent(Err(failure()))),
        (ClientState::ReplyPrefix, ClientEvent::ReplyPrefix(Err(failure()))),
        (ClientState::Reply, ClientEvent::Reply(Err(failure()))),
    ] {
        assert!(client_accepts(&state, &event));
        let (_, action) = request_spawn(state, event);
        match action {
            ClientAction::Finish(Err(SandboxError::IpcError(e))) => {
                assert_eq!(e.text, "broken pipe");
            }
            _ => panic!("another action"),
        }
    }
}

#[test]
fn responses_are_understood() {
    let err = encode_err_response(libc::EAGAIN);
    assert!(matches!(
        read_spawn_response(&err, &vec![]),
        Err(SandboxError::NamespaceCloneFailed(libc::EAGAIN))
    ));
    let ok = encode_ok_response(7);
    assert!(matches!(
        read_spawn_response(&ok, &vec![3, 4]),
        Err(SandboxError::ForkServerUnavailable)
    ));
    assert!(matches!(
        read_spawn_response(&[9], &vec![3, 4, 5]),
        Err(SandboxError::ForkServerUnavailable)
    ));
    assert!(matches!(
        spawn_outcome(Some(Err(1)), &vec![3, 4, 5]),
        Err(SandboxError::NamespaceCloneFailed(1))
    ));
}

#[test]
fn prefixes_announce_lengths() {
    assert_eq!(length_prefix(&vec![0; 258]), vec![2, 1, 0, 0]);
    assert_eq!(announced_length(&[2, 1, 0, 0]), 258);
    assert_eq!(announced_length(&[0xff; 4]), u32::MAX);
}

#[test]
fn fork_has_three_outcomes() {
    assert!(matches!(fork_outcome(-1, 12), Err(SandboxError::NamespaceCloneFailed(12))));
    assert!(matches!(fork_outcome(0, 12), Ok(None)));
    assert!(matches!(fork_outcome(99, 12), Ok(Some(99))));
}
