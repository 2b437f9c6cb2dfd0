//! The fork server, a process of its own that alone creates sandboxed children.
//!
//! A client sends a request as a length prefix and a payload, with the two ends
//! of a terminal as descriptors. The server makes the pipes, creates the child,
//! puts it into its cgroup, maps its user and group, lets it go on, and answers
//! with a length prefix and a payload, with three descriptors: a handle of the
//! child and the reading ends of its error pipe and of its standard error.
//!
//! `Server` decides what the server does; the input and output itself is left to
//! its caller, who reports back what came of each action.
use vstd::prelude::*;
use vstd::string::*;
use crate::cgroup;
use crate::cgroup::write_cgroup_procs;
use crate::error;
use crate::error::{IoFailure, SandboxError};
use crate::files;
use crate::files::FileWrite;
use crate::ipc;
use crate::ipc::{decode_response, encode_err_response, encode_ok_response};
use crate::ipc::{SpawnRequest, SpawnRequestView};
use crate::namespace;
use crate::namespace::{ChildFds, CloneResult, IdMapping};
use crate::paths;
use crate::wire;
use crate::wire::{pull_u32, push_u32};

verus! {

/// "Invalid argument", the answer to a request that cannot be understood.
pub const EINVAL: i32 = 22;

// ---- Framing ----

/// The length prefix of a payload; 32 bits of the length are kept.
pub open spec fn prefix_of(payload: Seq<u8>) -> Seq<u8> {
    wire::le(payload.len() as u32 as nat, 4)
}

/// The length prefix of a payload.
pub fn length_prefix(payload: &Vec<u8>) -> (prefix: Vec<u8>)
    ensures
        prefix@ == prefix_of(payload@),
{
    let mut prefix: Vec<u8> = Vec::new();
    let len: usize = payload.len();
    push_u32(&mut prefix, len as u32);
    assert(prefix@ =~= prefix_of(payload@));
    prefix
}

/// The length that a prefix announces.
pub fn announced_length(prefix: &[u8; 4]) -> (len: u32)
    ensures
        len == wire::le_value(prefix@),
{
    let mut p: usize = 0;
    proof {
        assert(prefix@.subrange(0, 4) =~= prefix@);
    }
    match pull_u32(prefix.as_slice(), &mut p) {
        Some(len) => len,
        None => 0,
    }
}

/// A payload of less than four gibibytes is announced with its length.
pub proof fn prefix_announces_the_length(payload: Seq<u8>)
    requires
        payload.len() < wire::length_limit(),
    ensures
        prefix_of(payload).len() == 4,
        wire::le_value(prefix_of(payload)) == payload.len(),
{
    wire::lemma_le_range();
    wire::lemma_le_len(payload.len(), 4);
    wire::lemma_le_decodes(payload.len(), 4);
}

// ---- Client ----

/// What `fork` says in the process that starts the server: an error, the server's
/// side, or the client's side with the process id of the server.
pub open spec fn forked(pid: i32, errno: i32) -> Result<Option<i32>, SandboxError> {
    if pid < 0 {
        Err(SandboxError::NamespaceCloneFailed(errno))
    } else if pid == 0 {
        Ok(None)
    } else {
        Ok(Some(pid))
    }
}

/// What `fork` says in the process that starts the server.
pub fn fork_outcome(pid: i32, errno: i32) -> (side: Result<Option<i32>, SandboxError>)
    ensures
        side == forked(pid, errno),
{
    if pid < 0 {
        Err(SandboxError::NamespaceCloneFailed(errno))
    } else if pid == 0 {
        Ok(None)
    } else {
        Ok(Some(pid))
    }
}

/// A child that the server has started.
#[derive(Clone, Copy, PartialEq, Eq, Structural, Debug)]
pub struct SpawnResponse {
    /// A handle of the child that no other process can take over.
    pub pidfd: i32,
    /// Where the child reports that it could not set itself up.
    pub err_pipe_rd: i32,
    /// Where the standard error of the child comes out.
    pub stderr_pipe_rd: i32,
    /// The process id of the child.
    pub child_pid: i32,
}

/// What the client makes of a response and the descriptors that came with it.
pub open spec fn spawned(response: Option<Result<i32, i32>>, fds: Seq<i32>) -> Result<
    SpawnResponse,
    SandboxError,
> {
    match response {
        Some(Ok(child_pid)) => if fds.len() < 3 {
            Err(SandboxError::ForkServerUnavailable)
        } else {
            Ok(
                SpawnResponse {
                    pidfd: fds[0],
                    err_pipe_rd: fds[1],
                    stderr_pipe_rd: fds[2],
                    child_pid,
                },
            )
        },
        Some(Err(errno)) => Err(SandboxError::NamespaceCloneFailed(errno)),
        None => Err(SandboxError::ForkServerUnavailable),
    }
}

/// What a response that has been read means, with the descriptors it brought.
pub fn spawn_outcome(response: Option<Result<i32, i32>>, fds: &Vec<i32>) -> (outcome: Result<
    SpawnResponse,
    SandboxError,
>)
    ensures
        outcome == spawned(response, fds@),
{
    match response {
        Some(Ok(child_pid)) => {
            if fds.len() < 3 {
                return Err(SandboxError::ForkServerUnavailable);
            }
            Ok(
                SpawnResponse {
                    pidfd: fds[0],
                    err_pipe_rd: fds[1],
                    stderr_pipe_rd: fds[2],
                    child_pid,
                },
            )
        },
        Some(Err(errno)) => Err(SandboxError::NamespaceCloneFailed(errno)),
        None => Err(SandboxError::ForkServerUnavailable),
    }
}

/// What the payload of a response means, with the descriptors it brought.
pub fn read_spawn_response(payload: &[u8], fds: &Vec<i32>) -> (outcome: Result<
    SpawnResponse,
    SandboxError,
>)
    ensures
        outcome == spawned(ipc::with_known_errno(ipc::response_in(payload@)), fds@),
{
    spawn_outcome(decode_response(payload), fds)
}

/// What a client waits for, and what it knows by then.
pub enum ClientState {
    /// The length prefix of the request to be sent.
    Prefix { payload: Vec<u8>, master_fd: i32, slave_fd: i32 },
    /// The request to be sent.
    Message,
    /// The length prefix of the answer.
    ReplyPrefix,
    /// The answer.
    Reply,
    /// Nothing.
    Over,
}

/// What came of an action of a client.
pub enum ClientEvent {
    PrefixSent(Result<(), IoFailure>),
    MessageSent(Result<(), IoFailure>),
    ReplyPrefix(Result<[u8; 4], IoFailure>),
    /// As many bytes as were announced, and the descriptors that came with them.
    Reply(Result<(Vec<u8>, Vec<i32>), IoFailure>),
}

/// What a client does next.
pub enum ClientAction {
    /// Send a length prefix.
    SendPrefix(Vec<u8>),
    /// Send a payload with descriptors, in this order.
    SendMessage { payload: Vec<u8>, fds: Vec<i32> },
    /// Read the four bytes of a length prefix.
    ReadReplyPrefix,
    /// Receive so many bytes and the descriptors that come with them.
    ReceiveReply { len: u32 },
    Finish(Result<SpawnResponse, SandboxError>),
}

/// The event is what came of the action that led to the state.
pub open spec fn client_fits(state: ClientState, event: ClientEvent) -> bool {
    match (state, event) {
        (ClientState::Prefix { .. }, ClientEvent::PrefixSent(_)) => true,
        (ClientState::Message, ClientEvent::MessageSent(_)) => true,
        (ClientState::ReplyPrefix, ClientEvent::ReplyPrefix(_)) => true,
        (ClientState::Reply, ClientEvent::Reply(_)) => true,
        _ => false,
    }
}

/// Whether the event is what came of the action that led to the state.
pub fn client_accepts(state: &ClientState, event: &ClientEvent) -> (yes: bool)
    ensures
        yes == client_fits(*state, *event),
{
    match (state, event) {
        (ClientState::Prefix { .. }, ClientEvent::PrefixSent(_)) => true,
        (ClientState::Message, ClientEvent::MessageSent(_)) => true,
        (ClientState::ReplyPrefix, ClientEvent::ReplyPrefix(_)) => true,
        (ClientState::Reply, ClientEvent::Reply(_)) => true,
        _ => false,
    }
}

/// The descriptors that go with a request.
pub open spec fn terminal_fds(master_fd: i32, slave_fd: i32) -> Seq<i32> {
    seq![master_fd, slave_fd]
}

/// The request ends with an error.
pub open spec fn gives_up(state: ClientState, action: ClientAction, error: SandboxError) -> bool {
    state is Over && action == ClientAction::Finish(Err(error))
}

/// From the state `s` the event `e` leads the client to the state `t` and the
/// action `a`.
pub open spec fn client_leads_to(
    s: ClientState,
    e: ClientEvent,
    t: ClientState,
    a: ClientAction,
) -> bool {
    match (s, e) {
        (
            ClientState::Prefix { payload, master_fd, slave_fd },
            ClientEvent::PrefixSent(sent),
        ) => match sent {
            Err(failure) => gives_up(t, a, SandboxError::IpcError(failure)),
            Ok(_) => {
                &&& t is Message
                &&& a matches ClientAction::SendMessage { payload: p, fds }
                &&& p == payload
                &&& fds@ == terminal_fds(master_fd, slave_fd)
            },
        },
        (ClientState::Message, ClientEvent::MessageSent(sent)) => match sent {
            Err(failure) => gives_up(t, a, SandboxError::IpcError(failure)),
            Ok(_) => t is ReplyPrefix && a is ReadReplyPrefix,
        },
        (ClientState::ReplyPrefix, ClientEvent::ReplyPrefix(read)) => match read {
            Err(failure) => gives_up(t, a, SandboxError::IpcError(failure)),
            Ok(prefix) => t is Reply && a == (ClientAction::ReceiveReply {
                len: wire::le_value(prefix@) as u32,
            }),
        },
        (ClientState::Reply, ClientEvent::Reply(received)) => match received {
            Err(failure) => gives_up(t, a, SandboxError::IpcError(failure)),
            Ok(reply) => t is Over && a == ClientAction::Finish(
                spawned(ipc::with_known_errno(ipc::response_in(reply.0@)), reply.1@),
            ),
        },
        _ => false,
    }
}

/// A client begins to ask for a child on a terminal: with the length of the request, or
/// not at all if the connection could not be had.
pub open spec fn client_begins(
    q: SpawnRequestView,
    master_fd: i32,
    slave_fd: i32,
    locked: bool,
    state: ClientState,
    action: ClientAction,
) -> bool {
    if locked {
        &&& state matches ClientState::Prefix { payload, master_fd: m, slave_fd: s }
        &&& payload@ == q.encoded()
        &&& m == master_fd
        &&& s == slave_fd
        &&& action matches ClientAction::SendPrefix(prefix)
        &&& prefix@ == prefix_of(payload@)
    } else {
        gives_up(state, action, SandboxError::ForkServerUnavailable)
    }
}

/// Begins to ask for a child on a terminal. `locked` tells whether the connection,
/// which one request at a time may use, could be had.
pub fn start_request(req: &SpawnRequest, master_fd: i32, slave_fd: i32, locked: bool) -> (start: (
    ClientState,
    ClientAction,
))
    ensures
        client_begins(req@, master_fd, slave_fd, locked, start.0, start.1),
{
    if !locked {
        return (ClientState::Over, ClientAction::Finish(Err(SandboxError::ForkServerUnavailable)));
    }
    let payload = req.serialize();
    let prefix = length_prefix(&payload);
    (ClientState::Prefix { payload, master_fd, slave_fd }, ClientAction::SendPrefix(prefix))
}

fn give_up(failure: IoFailure) -> (next: (ClientState, ClientAction))
    ensures
        gives_up(next.0, next.1, SandboxError::IpcError(failure)),
{
    (ClientState::Over, ClientAction::Finish(Err(SandboxError::IpcError(failure))))
}

/// One step of a client.
pub fn request_spawn(state: ClientState, event: ClientEvent) -> (next: (ClientState, ClientAction))
    requires
        client_fits(state, event),
    ensures
        client_leads_to(state, event, next.0, next.1),
{
    match (state, event) {
        (
            ClientState::Prefix { payload, master_fd, slave_fd },
            ClientEvent::PrefixSent(sent),
        ) => match sent {
            Err(failure) => give_up(failure),
            Ok(_) => {
                let fds: Vec<i32> = vec![master_fd, slave_fd];
                assert(fds@ =~= terminal_fds(master_fd, slave_fd));
                (ClientState::Message, ClientAction::SendMessage { payload, fds })
            },
        },
        (ClientState::Message, ClientEvent::MessageSent(sent)) => match sent {
            Err(failure) => give_up(failure),
            Ok(_) => (ClientState::ReplyPrefix, ClientAction::ReadReplyPrefix),
        },
        (ClientState::ReplyPrefix, ClientEvent::ReplyPrefix(read)) => match read {
            Err(failure) => give_up(failure),
            Ok(prefix) => (
                ClientState::Reply,
                ClientAction::ReceiveReply { len: announced_length(&prefix) },
            ),
        },
        (ClientState::Reply, ClientEvent::Reply(received)) => match received {
            Err(failure) => give_up(failure),
            Ok((payload, fds)) => (
                ClientState::Over,
                ClientAction::Finish(read_spawn_response(payload.as_slice(), &fds)),
            ),
        },
        _ => vstd::pervasive::unreached(),
    }
}

// ---- Server ----

/// Both ends of a pipe.
#[derive(Clone, Copy, PartialEq, Eq, Structural, Debug)]
pub struct Pipe {
    pub read_fd: i32,
    pub write_fd: i32,
}

/// What the server waits for, and what it knows by then.
pub enum ServerState {
    /// The length prefix of a request.
    Prefix,
    /// The payload and the descriptors of a request.
    Message,
    /// An eventfd.
    EventFd { req: SpawnRequest, slave_fd: i32 },
    /// The error pipe.
    ErrorPipe { req: SpawnRequest, slave_fd: i32, event_fd: i32 },
    /// The pipe for standard error.
    StderrPipe { req: SpawnRequest, slave_fd: i32, event_fd: i32, error_pipe: Pipe },
    /// The child.
    Clone { req: SpawnRequest, fds: ChildFds, error_pipe: Pipe, stderr_pipe_rd: i32 },
    /// The child to be in its cgroup.
    Join { req: SpawnRequest, child: SpawnResponse },
    /// The next write that maps the user and the group of the child.
    Maps { mapping: IdMapping, child: SpawnResponse },
    /// The child to be signalled.
    Signal { child: SpawnResponse },
    /// The length prefix of the answer to be sent.
    ReplyPrefix { child: SpawnResponse },
    /// The answer to be sent.
    Reply,
    /// A refusal to be sent.
    Refusal,
    /// Nothing: the server, or the child it has become, is through.
    Over,
}

/// What came of an action. Errors are error numbers.
pub enum ServerEvent {
    /// The length prefix, unless the client is gone.
    Prefix(Option<[u8; 4]>),
    /// As many bytes as were announced and the descriptors that came with them,
    /// unless receiving failed.
    Message(Option<(Vec<u8>, Vec<i32>)>),
    EventFd(Result<i32, i32>),
    ErrorPipe(Result<Pipe, i32>),
    StderrPipe(Result<Pipe, i32>),
    /// The child, seen from both sides: none is the child itself.
    Cloned(Result<Option<CloneResult>, i32>),
    Joined(Result<(), i32>),
    MapWritten(Result<(), i32>),
    Signalled,
    /// Whether the length prefix could be sent.
    PrefixSent(bool),
    ReplySent,
    RefusalSent,
}

/// What the server does next.
#[allow(inconsistent_fields)]
pub enum ServerAction {
    /// Read the four bytes of a length prefix.
    ReadPrefix,
    /// Receive so many bytes and the descriptors that come with them.
    ReceiveMessage { len: u32 },
    /// Make an eventfd with the value 0.
    OpenEventFd,
    /// Make a pipe that does not survive `execve`.
    OpenErrorPipe,
    /// Make a pipe that does.
    OpenStderrPipe,
    /// Create the child.
    Clone,
    /// Be the child, and report failures to the descriptor `error_fd`.
    RunChild { req: SpawnRequest, fds: ChildFds, error_fd: i32 },
    /// Put the child into its cgroup.
    JoinCgroup(FileWrite<Vec<u8>>),
    /// Make the next write that maps the user and the group of the child.
    WriteMap(FileWrite<Vec<u8>>),
    /// Add a value to the eventfd that the child waits for.
    SignalChild { value: u64 },
    /// Send the length prefix of the answer.
    SendPrefix(Vec<u8>),
    /// Send the answer with descriptors, in this order; whether that succeeds does
    /// not matter.
    SendReply { payload: Vec<u8>, fds: Vec<i32> },
    /// Send a length prefix and the payload of a refusal; whether that succeeds
    /// does not matter.
    Refuse { prefix: Vec<u8>, payload: Vec<u8> },
    /// End the server.
    Stop,
}

/// The event is what came of the action that led to the state.
pub open spec fn fits(state: ServerState, event: ServerEvent) -> bool {
    match (state, event) {
        (ServerState::Prefix, ServerEvent::Prefix(_)) => true,
        (ServerState::Message, ServerEvent::Message(_)) => true,
        (ServerState::EventFd { .. }, ServerEvent::EventFd(_)) => true,
        (ServerState::ErrorPipe { .. }, ServerEvent::ErrorPipe(_)) => true,
        (ServerState::StderrPipe { .. }, ServerEvent::StderrPipe(_)) => true,
        (ServerState::Clone { .. }, ServerEvent::Cloned(_)) => true,
        (ServerState::Join { .. }, ServerEvent::Joined(_)) => true,
        (ServerState::Maps { mapping, .. }, ServerEvent::MapWritten(_)) => mapping.next
            < mapping.writes@.len(),
        (ServerState::Signal { .. }, ServerEvent::Signalled) => true,
        (ServerState::ReplyPrefix { .. }, ServerEvent::PrefixSent(_)) => true,
        (ServerState::Reply, ServerEvent::ReplySent) => true,
        (ServerState::Refusal, ServerEvent::RefusalSent) => true,
        _ => false,
    }
}

/// A request is refused with an error number.
pub open spec fn refuses(state: ServerState, action: ServerAction, errno: i32) -> bool {
    &&& state is Refusal
    &&& action matches ServerAction::Refuse { prefix, payload }
    &&& payload@ == ipc::tagged(ipc::RESP_ERR, errno)
    &&& prefix@ == prefix_of(payload@)
}

/// The descriptors that go with an answer: the handle of the child, and the reading
/// ends of its error pipe and of its standard error.
pub open spec fn reply_fds(child: SpawnResponse) -> Seq<i32> {
    seq![child.pidfd, child.err_pipe_rd, child.stderr_pipe_rd]
}

/// The next write of a mapping is made; the child is what it is for.
pub open spec fn writes_next(
    state: ServerState,
    action: ServerAction,
    writes: Seq<FileWrite<Seq<u8>>>,
    next: int,
    child: SpawnResponse,
) -> bool {
    &&& state matches ServerState::Maps { mapping, child: c }
    &&& namespace::writes_view(mapping.writes@) == writes
    &&& mapping.next == next
    &&& c == child
    &&& action matches ServerAction::WriteMap(write)
    &&& write@ == writes[next]
}

/// The server is through.
pub open spec fn stops(state: ServerState, action: ServerAction) -> bool {
    state is Over && action is Stop
}

/// From the state `s` the event `e` leads to the state `t` and the action `a`.
pub open spec fn leads_to(s: ServerState, e: ServerEvent, t: ServerState, a: ServerAction) -> bool {
    match (s, e) {
        (ServerState::Prefix, ServerEvent::Prefix(None)) => stops(t, a),
        (ServerState::Prefix, ServerEvent::Prefix(Some(prefix))) => t is Message
            && a == (ServerAction::ReceiveMessage { len: wire::le_value(prefix@) as u32 }),
        (ServerState::Message, ServerEvent::Message(None)) => stops(t, a),
        (ServerState::Message, ServerEvent::Message(Some(message))) => if message.1@.len() < 2 {
            stops(t, a)
        } else {
            match ipc::decoded(message.0@) {
                None => refuses(t, a, EINVAL),
                Some(wanted) => {
                    &&& t matches ServerState::EventFd { req, slave_fd }
                    &&& req@ == wanted
                    &&& slave_fd == message.1@[1]
                    &&& a is OpenEventFd
                },
            }
        },
        (ServerState::EventFd { req, slave_fd }, ServerEvent::EventFd(made)) => match made {
            Err(errno) => refuses(t, a, errno),
            Ok(event_fd) => t == (ServerState::ErrorPipe { req, slave_fd, event_fd })
                && a is OpenErrorPipe,
        },
        (
            ServerState::ErrorPipe { req, slave_fd, event_fd },
            ServerEvent::ErrorPipe(made),
        ) => match made {
            Err(errno) => refuses(t, a, errno),
            Ok(error_pipe) => t == (ServerState::StderrPipe {
                req,
                slave_fd,
                event_fd,
                error_pipe,
            }) && a is OpenStderrPipe,
        },
        (
            ServerState::StderrPipe { req, slave_fd, event_fd, error_pipe },
            ServerEvent::StderrPipe(made),
        ) => match made {
            Err(errno) => refuses(t, a, errno),
            Ok(stderr_pipe) => {
                &&& t == ServerState::Clone {
                    req,
                    fds: ChildFds {
                        sync_read_fd: event_fd,
                        slave_fd,
                        stderr_write_fd: stderr_pipe.write_fd,
                    },
                    error_pipe,
                    stderr_pipe_rd: stderr_pipe.read_fd,
                }
                &&& a is Clone
            },
        },
        (
            ServerState::Clone { req, fds, error_pipe, stderr_pipe_rd },
            ServerEvent::Cloned(made),
        ) => match made {
            Err(errno) => refuses(t, a, errno),
            Ok(None) => t is Over && a == (ServerAction::RunChild {
                req,
                fds,
                error_fd: error_pipe.write_fd,
            }),
            Ok(Some(made)) => {
                &&& t == ServerState::Join {
                    req,
                    child: SpawnResponse {
                        pidfd: made.pidfd,
                        err_pipe_rd: error_pipe.read_fd,
                        stderr_pipe_rd,
                        child_pid: made.child_pid,
                    },
                }
                &&& a matches ServerAction::JoinCgroup(write)
                &&& write@ == cgroup::join_write(req.cgroup_path@, made.child_pid as int)
            },
        },
        (ServerState::Join { req, child }, ServerEvent::Joined(done)) => match done {
            Err(errno) => refuses(t, a, errno),
            Ok(_) => writes_next(
                t,
                a,
                namespace::id_map_writes(
                    child.child_pid as int,
                    req.host_uid as nat,
                    req.host_gid as nat,
                ),
                0,
                child,
            ),
        },
        (ServerState::Maps { mapping, child }, ServerEvent::MapWritten(done)) => match done {
            Err(errno) => refuses(t, a, errno),
            Ok(_) => if mapping.next + 1 < mapping.writes@.len() {
                writes_next(
                    t,
                    a,
                    namespace::writes_view(mapping.writes@),
                    mapping.next + 1,
                    child,
                )
            } else {
                t == (ServerState::Signal { child }) && a == (ServerAction::SignalChild {
                    value: 1,
                })
            },
        },
        (ServerState::Signal { child }, ServerEvent::Signalled) => {
            &&& t == ServerState::ReplyPrefix { child }
            &&& a matches ServerAction::SendPrefix(prefix)
            &&& prefix@ == prefix_of(ipc::tagged(ipc::RESP_OK, child.child_pid))
        },
        (ServerState::ReplyPrefix { child }, ServerEvent::PrefixSent(sent)) => if sent {
            &&& t is Reply
            &&& a matches ServerAction::SendReply { payload, fds }
            &&& payload@ == ipc::tagged(ipc::RESP_OK, child.child_pid)
            &&& fds@ == reply_fds(child)
        } else {
            stops(t, a)
        },
        (ServerState::Reply, ServerEvent::ReplySent) => t is Prefix && a is ReadPrefix,
        (ServerState::Refusal, ServerEvent::RefusalSent) => t is Prefix && a is ReadPrefix,
        _ => false,
    }
}

/// Whether the event is what came of the action that led to the state.
pub fn accepts(state: &ServerState, event: &ServerEvent) -> (yes: bool)
    ensures
        yes == fits(*state, *event),
{
    match (state, event) {
        (ServerState::Prefix, ServerEvent::Prefix(_)) => true,
        (ServerState::Message, ServerEvent::Message(_)) => true,
        (ServerState::EventFd { .. }, ServerEvent::EventFd(_)) => true,
        (ServerState::ErrorPipe { .. }, ServerEvent::ErrorPipe(_)) => true,
        (ServerState::StderrPipe { .. }, ServerEvent::StderrPipe(_)) => true,
        (ServerState::Clone { .. }, ServerEvent::Cloned(_)) => true,
        (ServerState::Join { .. }, ServerEvent::Joined(_)) => true,
        (ServerState::Maps { mapping, .. }, ServerEvent::MapWritten(_)) => mapping.next
            < mapping.writes.len(),
        (ServerState::Signal { .. }, ServerEvent::Signalled) => true,
        (ServerState::ReplyPrefix { .. }, ServerEvent::PrefixSent(_)) => true,
        (ServerState::Reply, ServerEvent::ReplySent) => true,
        (ServerState::Refusal, ServerEvent::RefusalSent) => true,
        _ => false,
    }
}

/// The server is ready for its first request.
pub fn start_server() -> (start: (ServerState, ServerAction))
    ensures
        start.0 is Prefix,
        start.1 is ReadPrefix,
{
    (ServerState::Prefix, ServerAction::ReadPrefix)
}

/// The answer to a request that failed with an error number.
fn send_error(errno: i32) -> (next: (ServerState, ServerAction))
    ensures
        refuses(next.0, next.1, errno),
{
    let payload = encode_err_response(errno);
    let prefix = length_prefix(&payload);
    (ServerState::Refusal, ServerAction::Refuse { prefix, payload })
}

/// A whole request has arrived.
fn on_message(payload: Vec<u8>, fds: Vec<i32>) -> (next: (ServerState, ServerAction))
    ensures
        leads_to(
            ServerState::Message,
            ServerEvent::Message(Some((payload, fds))),
            next.0,
            next.1,
        ),
{
    if fds.len() < 2 {
        return (ServerState::Over, ServerAction::Stop);
    }
    match SpawnRequest::deserialize(payload.as_slice()) {
        None => send_error(EINVAL),
        Some(req) => (
            ServerState::EventFd { req, slave_fd: fds[1] },
            ServerAction::OpenEventFd,
        ),
    }
}

/// The pending write of a mapping is made, or, if there is none, the child is let go
/// on.
fn write_map(mapping: IdMapping, child: SpawnResponse) -> (next: (ServerState, ServerAction))
    requires
        mapping.next <= mapping.writes@.len(),
    ensures
        mapping.next < mapping.writes@.len() ==> writes_next(
            next.0,
            next.1,
            namespace::writes_view(mapping.writes@),
            mapping.next as int,
            child,
        ),
        mapping.next == mapping.writes@.len() ==> next.0 == (ServerState::Signal { child })
            && next.1 == (ServerAction::SignalChild { value: 1 }),
{
    match mapping.pending() {
        Some(write) => (
            ServerState::Maps { mapping, child },
            ServerAction::WriteMap(write),
        ),
        None => (ServerState::Signal { child }, ServerAction::SignalChild { value: 1 }),
    }
}

/// The pending write of a mapping has been made or has failed.
fn on_map_written(mapping: IdMapping, child: SpawnResponse, done: Result<(), i32>) -> (next: (
    ServerState,
    ServerAction,
))
    requires
        mapping.next < mapping.writes@.len(),
    ensures
        leads_to(
            ServerState::Maps { mapping, child },
            ServerEvent::MapWritten(done),
            next.0,
            next.1,
        ),
{
    let mut mapping = mapping;
    match mapping.on_write(done) {
        Ok(_) => write_map(mapping, child),
        Err(SandboxError::UserNamespaceSetupFailed(errno)) => send_error(errno),
        Err(_) => vstd::pervasive::unreached(),
    }
}

/// One step of the server.
pub fn handle_one_request(state: ServerState, event: ServerEvent) -> (next: (
    ServerState,
    ServerAction,
))
    requires
        fits(state, event),
    ensures
        leads_to(state, event, next.0, next.1),
{
    match (state, event) {
        (ServerState::Prefix, ServerEvent::Prefix(Some(prefix))) => (
            ServerState::Message,
            ServerAction::ReceiveMessage { len: announced_length(&prefix) },
        ),
        (ServerState::Message, ServerEvent::Message(Some((payload, fds)))) => on_message(
            payload,
            fds,
        ),
        (ServerState::EventFd { req, slave_fd }, ServerEvent::EventFd(made)) => match made {
            Err(errno) => send_error(errno),
            Ok(event_fd) => (
                ServerState::ErrorPipe { req, slave_fd, event_fd },
                ServerAction::OpenErrorPipe,
            ),
        },
        (
            ServerState::ErrorPipe { req, slave_fd, event_fd },
            ServerEvent::ErrorPipe(made),
        ) => match made {
            Err(errno) => send_error(errno),
            Ok(error_pipe) => (
                ServerState::StderrPipe { req, slave_fd, event_fd, error_pipe },
                ServerAction::OpenStderrPipe,
            ),
        },
        (
            ServerState::StderrPipe { req, slave_fd, event_fd, error_pipe },
            ServerEvent::StderrPipe(made),
        ) => match made {
            Err(errno) => send_error(errno),
            Ok(stderr_pipe) => (
                ServerState::Clone {
                    req,
                    fds: ChildFds {
                        sync_read_fd: event_fd,
                        slave_fd,
                        stderr_write_fd: stderr_pipe.write_fd,
                    },
                    error_pipe,
                    stderr_pipe_rd: stderr_pipe.read_fd,
                },
                ServerAction::Clone,
            ),
        },
        (
            ServerState::Clone { req, fds, error_pipe, stderr_pipe_rd },
            ServerEvent::Cloned(made),
        ) => match made {
            Err(errno) => send_error(errno),
            Ok(None) => (
                ServerState::Over,
                ServerAction::RunChild { req, fds, error_fd: error_pipe.write_fd },
            ),
            Ok(Some(made)) => {
                // The child joins its cgroup before it is let go on.
                let write = write_cgroup_procs(&req.cgroup_path, made.child_pid);
                let child = SpawnResponse {
                    pidfd: made.pidfd,
                    err_pipe_rd: error_pipe.read_fd,
                    stderr_pipe_rd,
                    child_pid: made.child_pid,
                };
                (ServerState::Join { req, child }, ServerAction::JoinCgroup(write))
            },
        },
        (ServerState::Join { req, child }, ServerEvent::Joined(done)) => match done {
            Err(errno) => send_error(errno),
            Ok(_) => write_map(
                IdMapping::new(child.child_pid, req.host_uid, req.host_gid),
                child,
            ),
        },
        (ServerState::Maps { mapping, child }, ServerEvent::MapWritten(done)) => on_map_written(
            mapping,
            child,
            done,
        ),
        (ServerState::Signal { child }, ServerEvent::Signalled) => {
            let prefix = length_prefix(&encode_ok_response(child.child_pid));
            (ServerState::ReplyPrefix { child }, ServerAction::SendPrefix(prefix))
        },
        (ServerState::ReplyPrefix { child }, ServerEvent::PrefixSent(true)) => {
            let payload = encode_ok_response(child.child_pid);
            let fds: Vec<i32> = vec![child.pidfd, child.err_pipe_rd, child.stderr_pipe_rd];
            assert(fds@ =~= reply_fds(child));
            (ServerState::Reply, ServerAction::SendReply { payload, fds })
        },
        (ServerState::Reply, ServerEvent::ReplySent) => (
            ServerState::Prefix,
            ServerAction::ReadPrefix,
        ),
        (ServerState::Refusal, ServerEvent::RefusalSent) => (
            ServerState::Prefix,
            ServerAction::ReadPrefix,
        ),
        // The client is gone.
        _ => (ServerState::Over, ServerAction::Stop),
    }
}

// ---- Laws ----

/// A course of the server: each event leads from one state to the next, and to an
/// action.
pub open spec fn is_course(
    states: Seq<ServerState>,
    events: Seq<ServerEvent>,
    actions: Seq<ServerAction>,
) -> bool {
    &&& states.len() == events.len() + 1
    &&& actions.len() == events.len()
    &&& states[0] is Prefix
    &&& forall|i: int| 0 <= i < events.len() ==> #[trigger] goes_on(states, events, actions, i)
}

/// The `i`-th event leads to the next state and to an action.
pub open spec fn goes_on(
    states: Seq<ServerState>,
    events: Seq<ServerEvent>,
    actions: Seq<ServerAction>,
    i: int,
) -> bool {
    leads_to(states[i], events[i], states[i + 1], actions[i])
}

/// A child is being mapped: it has joined its cgroup before, and the writes up to
/// the pending one have been made, each in its turn.
spec fn maps_in_turn(
    states: Seq<ServerState>,
    events: Seq<ServerEvent>,
    actions: Seq<ServerAction>,
    i: int,
) -> bool {
    states[i] matches ServerState::Maps { mapping, child } ==> {
        let k = mapping.next as int;
        &&& mapping.writes@.len() == 3
        &&& 0 <= k < 3
        &&& i >= k + 2
        &&& states[i - k - 1] matches ServerState::Join { req, child: joined }
        &&& joined == child
        &&& events[i - k - 1] matches ServerEvent::Joined(Ok(_))
        &&& actions[i - k - 2] is JoinCgroup
        &&& namespace::writes_view(mapping.writes@) == namespace::id_map_writes(
            child.child_pid as int,
            req.host_uid as nat,
            req.host_gid as nat,
        )
        &&& forall|j: int|
            i - k <= j < i ==> (#[trigger] events[j] matches ServerEvent::MapWritten(Ok(_)))
        &&& forall|j: int|
            0 <= j <= k ==> (#[trigger] actions[i - k - 1 + j] matches ServerAction::WriteMap(w)
                && w@ == namespace::writes_view(mapping.writes@)[j])
    }
}

proof fn lemma_maps_in_turn(
    states: Seq<ServerState>,
    events: Seq<ServerEvent>,
    actions: Seq<ServerAction>,
    i: int,
)
    requires
        is_course(states, events, actions),
        0 <= i < states.len(),
    ensures
        maps_in_turn(states, events, actions, i),
    decreases i,
{
    if i > 0 {
        lemma_maps_in_turn(states, events, actions, i - 1);
        assert(goes_on(states, events, actions, i - 1));
        if states[i] is Maps {
            let writes = namespace::writes_view(states[i]->mapping.writes@);
            assert(writes.len() == states[i]->mapping.writes@.len());
            if states[i - 1] is Join {
                assert(i >= 2);
                assert(goes_on(states, events, actions, i - 2));
            } else {
                let before = states[i - 1]->mapping;
                assert(namespace::writes_view(before.writes@).len() == before.writes@.len());
                let k = states[i]->mapping.next as int;
                assert(before.next == k - 1);
                assert forall|j: int| i - k <= j < i implies (
                #[trigger] events[j] matches ServerEvent::MapWritten(Ok(_))) by {
                    if j < i - 1 {
                        assert(i - 1 - (k - 1) <= j < i - 1);
                    }
                }
                assert forall|j: int| 0 <= j <= k implies (
                #[trigger] actions[i - k - 1 + j] matches ServerAction::WriteMap(w) && w@
                    == writes[j]) by {
                    if j < k {
                        assert(actions[(i - 1) - (k - 1) - 1 + j] is WriteMap);
                    }
                }
            }
        }
    }
}

/// A child is let go on only when it has joined its cgroup and all three writes that
/// map its user and group have been made, in this order, and is announced to the
/// client only after that.
pub proof fn children_go_on_contained(
    states: Seq<ServerState>,
    events: Seq<ServerEvent>,
    actions: Seq<ServerAction>,
    n: int,
)
    requires
        is_course(states, events, actions),
        0 <= n < events.len(),
    ensures
        actions[n] is SignalChild ==> {
            &&& n >= 4
            &&& events[n] matches ServerEvent::MapWritten(Ok(_))
            &&& events[n - 1] matches ServerEvent::MapWritten(Ok(_))
            &&& events[n - 2] matches ServerEvent::MapWritten(Ok(_))
            &&& events[n - 3] matches ServerEvent::Joined(Ok(_))
            &&& actions[n - 4] is JoinCgroup
            &&& states[n - 3] matches ServerState::Join { req, child }
            &&& forall|j: int|
                0 <= j < 3 ==> (#[trigger] actions[n - 3 + j] matches ServerAction::WriteMap(w)
                    && w@ == namespace::id_map_writes(
                    child.child_pid as int,
                    req.host_uid as nat,
                    req.host_gid as nat,
                )[j])
        },
        actions[n] is SendPrefix ==> n >= 1 && actions[n - 1] is SignalChild,
        actions[n] is SendReply ==> n >= 2 && actions[n - 1] is SendPrefix && actions[n
            - 2] is SignalChild,
{
    assert(goes_on(states, events, actions, n));
    if n >= 1 {
        assert(goes_on(states, events, actions, n - 1));
    }
    if n >= 2 {
        assert(goes_on(states, events, actions, n - 2));
    }
    if actions[n] is SignalChild {
        lemma_maps_in_turn(states, events, actions, n);
        assert(states[n]->mapping.next == 2);
        assert(events[n - 1] matches ServerEvent::MapWritten(Ok(_)));
        assert(events[n - 2] matches ServerEvent::MapWritten(Ok(_)));
        assert forall|j: int| 0 <= j < 3 implies (
        #[trigger] actions[n - 3 + j] matches ServerAction::WriteMap(w) && w@
            == namespace::writes_view(states[n]->mapping.writes@)[j]) by {
            assert(actions[n - 2 - 1 + j] is WriteMap);
        }
    }
}

/// The error number that an event brings.
pub open spec fn failure_of(event: ServerEvent) -> Option<i32> {
    match event {
        ServerEvent::EventFd(Err(errno)) => Some(errno),
        ServerEvent::ErrorPipe(Err(errno)) => Some(errno),
        ServerEvent::StderrPipe(Err(errno)) => Some(errno),
        ServerEvent::Cloned(Err(errno)) => Some(errno),
        ServerEvent::Joined(Err(errno)) => Some(errno),
        ServerEvent::MapWritten(Err(errno)) => Some(errno),
        _ => None,
    }
}

/// A failure on the way to a child is answered with its error number, after which
/// the server waits for the next request.
pub proof fn failures_are_answered(
    s: ServerState,
    e: ServerEvent,
    t: ServerState,
    a: ServerAction,
    u: ServerState,
    b: ServerAction,
)
    requires
        leads_to(s, e, t, a),
        failure_of(e) is Some,
    ensures
        refuses(t, a, failure_of(e)->0),
        leads_to(t, ServerEvent::RefusalSent, u, b) ==> u is Prefix && b is ReadPrefix,
{
}

/// The server ends only when the client is gone or breaks the protocol, whatever
/// a request holds.
pub proof fn only_a_lost_client_stops_the_server(
    s: ServerState,
    e: ServerEvent,
    t: ServerState,
    a: ServerAction,
)
    requires
        leads_to(s, e, t, a),
    ensures
        a is Stop <==> {
            ||| e == ServerEvent::Prefix(None)
            ||| e == ServerEvent::Message(None)
            ||| e matches ServerEvent::Message(Some(message)) && message.1@.len() < 2
            ||| e == ServerEvent::PrefixSent(false)
        },
{
}

/// The server receives exactly the request that the client has sent, and gives its
/// child the slave of the terminal that came with it.
pub proof fn request_reaches_the_server(
    q: SpawnRequestView,
    message: (Vec<u8>, Vec<i32>),
    master_fd: i32,
    slave_fd: i32,
    t: ServerState,
    a: ServerAction,
)
    requires
        q.encodable(),
        q.encoded().len() < wire::length_limit(),
        message.0@ == q.encoded(),
        message.1@ == terminal_fds(master_fd, slave_fd),
        leads_to(ServerState::Message, ServerEvent::Message(Some(message)), t, a),
    ensures
        t matches ServerState::EventFd { req, slave_fd: s } && req@ == q && s == slave_fd,
        wire::le_value(prefix_of(q.encoded())) == q.encoded().len(),
        ipc::decoded(q.encoded()) == Some(q),
{
    prefix_announces_the_length(q.encoded());
    ipc::decoding_undoes_encoding(q, Seq::empty());
}

/// The client learns the error number that the server has refused its request
/// with, whatever descriptors come along; a number that is not known becomes 0.
pub proof fn refusal_reaches_the_client(errno: i32, fds: Seq<i32>)
    ensures
        wire::le_value(prefix_of(ipc::tagged(ipc::RESP_ERR, errno))) == 5,
        spawned(
            ipc::with_known_errno(ipc::response_in(ipc::tagged(ipc::RESP_ERR, errno))),
            fds,
        ) == Err::<SpawnResponse, SandboxError>(
            SandboxError::NamespaceCloneFailed(error::known_errno(errno)),
        ),
{
    let payload = ipc::tagged(ipc::RESP_ERR, errno);
    wire::lemma_le_len(errno as u32 as nat, 4);
    prefix_announces_the_length(payload);
    ipc::response_round_trip(errno, Seq::empty());
    assert(payload + Seq::<u8>::empty() =~= payload);
}

/// The client gets exactly the child that the server has made: its process id, its
/// handle and its two pipes.
pub proof fn reply_reaches_the_client(child: SpawnResponse)
    ensures
        wire::le_value(prefix_of(ipc::tagged(ipc::RESP_OK, child.child_pid))) == 5,
        spawned(
            ipc::with_known_errno(ipc::response_in(ipc::tagged(ipc::RESP_OK, child.child_pid))),
            reply_fds(child),
        ) == Ok::<SpawnResponse, SandboxError>(child),
{
    let payload = ipc::tagged(ipc::RESP_OK, child.child_pid);
    wire::lemma_le_len(child.child_pid as u32 as nat, 4);
    prefix_announces_the_length(payload);
    ipc::response_round_trip(child.child_pid, Seq::empty());
    assert(payload + Seq::<u8>::empty() =~= payload);
}

/// The event brought a request, with the slave of a terminal.
pub open spec fn brings(event: ServerEvent, q: SpawnRequestView, slave_fd: i32) -> bool {
    &&& event matches ServerEvent::Message(Some(message))
    &&& message.1@.len() >= 2
    &&& message.1@[1] == slave_fd
    &&& ipc::decoded(message.0@) == Some(q)
}

/// What is known of the past of the server in its `i`-th state.
spec fn past_is_known(states: Seq<ServerState>, events: Seq<ServerEvent>, i: int) -> bool {
    match states[i] {
        ServerState::EventFd { req, slave_fd } => i >= 2 && brings(events[i - 1], req@, slave_fd),
        ServerState::ErrorPipe { req, slave_fd, event_fd } => {
            &&& i >= 3
            &&& brings(events[i - 2], req@, slave_fd)
            &&& events[i - 1] == ServerEvent::EventFd(Ok(event_fd))
        },
        ServerState::StderrPipe { req, slave_fd, event_fd, error_pipe } => {
            &&& i >= 4
            &&& brings(events[i - 3], req@, slave_fd)
            &&& events[i - 2] == ServerEvent::EventFd(Ok(event_fd))
            &&& events[i - 1] == ServerEvent::ErrorPipe(Ok(error_pipe))
        },
        ServerState::Clone { req, fds, error_pipe, stderr_pipe_rd } => {
            &&& i >= 5
            &&& brings(events[i - 4], req@, fds.slave_fd)
            &&& events[i - 3] == ServerEvent::EventFd(Ok(fds.sync_read_fd))
            &&& events[i - 2] == ServerEvent::ErrorPipe(Ok(error_pipe))
            &&& events[i - 1] == ServerEvent::StderrPipe(
                Ok(Pipe { read_fd: stderr_pipe_rd, write_fd: fds.stderr_write_fd }),
            )
        },
        ServerState::Join { req, child } => {
            &&& i >= 6
            &&& events[i - 5] matches ServerEvent::Message(Some(message))
            &&& ipc::decoded(message.0@) == Some(req@)
            &&& events[i - 3] matches ServerEvent::ErrorPipe(Ok(error_pipe))
            &&& error_pipe.read_fd == child.err_pipe_rd
            &&& events[i - 2] matches ServerEvent::StderrPipe(Ok(stderr_pipe))
            &&& stderr_pipe.read_fd == child.stderr_pipe_rd
            &&& events[i - 1] == ServerEvent::Cloned(
                Ok(Some(CloneResult { child_pid: child.child_pid, pidfd: child.pidfd })),
            )
        },
        _ => true,
    }
}

#[verifier::spinoff_prover]
proof fn lemma_past_is_known(
    states: Seq<ServerState>,
    events: Seq<ServerEvent>,
    actions: Seq<ServerAction>,
    i: int,
)
    requires
        is_course(states, events, actions),
        0 <= i < states.len(),
    ensures
        past_is_known(states, events, i),
    decreases i,
{
    if i > 0 {
        lemma_past_is_known(states, events, actions, i - 1);
        assert(goes_on(states, events, actions, i - 1));
        if i == 1 {
            assert(states[0] is Prefix);
        }
    }
}

/// A child that is let go on, or answered for, comes from the state in which it joined
/// its cgroup, a known number of events before.
proof fn lemma_child_has_joined(
    states: Seq<ServerState>,
    events: Seq<ServerEvent>,
    actions: Seq<ServerAction>,
    i: int,
)
    requires
        is_course(states, events, actions),
        0 <= i < states.len(),
    ensures
        states[i] matches ServerState::Signal { child } ==> {
            &&& i >= 10
            &&& states[i - 4] matches ServerState::Join { req, child: joined }
            &&& joined == child
        },
        states[i] matches ServerState::ReplyPrefix { child } ==> {
            &&& i >= 11
            &&& states[i - 5] matches ServerState::Join { req, child: joined }
            &&& joined == child
        },
    decreases i,
{
    if i > 0 {
        assert(goes_on(states, events, actions, i - 1));
        lemma_child_has_joined(states, events, actions, i - 1);
        lemma_maps_in_turn(states, events, actions, i - 1);
        if states[i] is Signal {
            assert(states[i - 1] is Maps);
            lemma_past_is_known(states, events, actions, i - 4);
        }
    }
}

/// The child runs what the client has asked for: the request is the one that came with
/// the message, its terminal is the slave that came with it, it waits for the eventfd
/// that was made for it, and writes to the writing ends of the two pipes that were.
pub proof fn children_run_what_was_asked_for(
    states: Seq<ServerState>,
    events: Seq<ServerEvent>,
    actions: Seq<ServerAction>,
    n: int,
)
    requires
        is_course(states, events, actions),
        0 <= n < events.len(),
    ensures
        actions[n] matches ServerAction::RunChild { req, fds, error_fd } ==> {
            &&& n >= 5
            &&& events[n - 4] matches ServerEvent::Message(Some(message))
            &&& ipc::decoded(message.0@) == Some(req@)
            &&& message.1@.len() >= 2 && message.1@[1] == fds.slave_fd
            &&& events[n - 3] == ServerEvent::EventFd(Ok(fds.sync_read_fd))
            &&& events[n - 2] matches ServerEvent::ErrorPipe(Ok(error_pipe))
            &&& error_pipe.write_fd == error_fd
            &&& events[n - 1] matches ServerEvent::StderrPipe(Ok(stderr_pipe))
            &&& stderr_pipe.write_fd == fds.stderr_write_fd
            &&& events[n] matches ServerEvent::Cloned(Ok(None))
        },
{
    lemma_past_is_known(states, events, actions, n);
    assert(goes_on(states, events, actions, n));
}

/// The cgroup that a child joins is the one of its request, and what is written there
/// is the number of the child that was made.
#[verifier::spinoff_prover]
pub proof fn children_join_the_cgroup_of_their_request(
    states: Seq<ServerState>,
    events: Seq<ServerEvent>,
    actions: Seq<ServerAction>,
    n: int,
)
    requires
        is_course(states, events, actions),
        0 <= n < events.len(),
    ensures
        actions[n] matches ServerAction::JoinCgroup(write) ==> {
            &&& n >= 5
            &&& events[n - 4] matches ServerEvent::Message(Some(message))
            &&& ipc::decoded(message.0@) matches Some(q)
            &&& events[n] matches ServerEvent::Cloned(Ok(Some(made)))
            &&& write.path@ == paths::below(q.cgroup_path, "cgroup.procs".spec_bytes())
            &&& made.child_pid >= 0 ==> files::is_plain_number(write.content@)
                && files::value_of_digits(write.content@) == made.child_pid
        },
{
    lemma_past_is_known(states, events, actions, n);
    assert(goes_on(states, events, actions, n));
    if actions[n] is JoinCgroup {
        let write = actions[n]->JoinCgroup_0;
        let path = states[n]->Clone_req.cgroup_path@;
        let child = states[n + 1]->Join_child;
        assert(write@ == cgroup::join_write(path, child.child_pid as int));
        lemma_join_reads_back(write, path, child.child_pid as int);
    }
}

proof fn lemma_join_reads_back(write: FileWrite<Vec<u8>>, directory: Seq<u8>, pid: int)
    requires
        write@ == cgroup::join_write(directory, pid),
    ensures
        write.path@ == paths::below(directory, "cgroup.procs".spec_bytes()),
        pid >= 0 ==> files::is_plain_number(write.content@) && files::value_of_digits(
            write.content@,
        ) == pid,
{
    files::writes_are_taken_as_they_are(write);
    if pid >= 0 {
        cgroup::joins_and_kills_read_back(directory, pid);
    }
}

/// A child goes on as nobody, mapped to the user and the group of its own request: the
/// three writes before the signal are for the child that was made, and read back as
/// what the request says.
#[verifier::spinoff_prover]
pub proof fn children_are_mapped_as_requested(
    states: Seq<ServerState>,
    events: Seq<ServerEvent>,
    actions: Seq<ServerAction>,
    n: int,
)
    requires
        is_course(states, events, actions),
        0 <= n < events.len(),
    ensures
        actions[n] matches ServerAction::SignalChild { value } ==> {
            &&& n >= 9
            &&& value == 1
            &&& events[n - 8] matches ServerEvent::Message(Some(message))
            &&& ipc::decoded(message.0@) matches Some(q)
            &&& events[n - 4] matches ServerEvent::Cloned(Ok(Some(made)))
            &&& actions[n - 3] matches ServerAction::WriteMap(first)
            &&& actions[n - 2] matches ServerAction::WriteMap(second)
            &&& actions[n - 1] matches ServerAction::WriteMap(third)
            &&& made.child_pid > 0 ==> {
                let pid = made.child_pid as int;
                &&& namespace::is_proc_file(first.path@, pid, "/setgroups")
                &&& first.content@ == "deny".spec_bytes()
                &&& namespace::is_proc_file(second.path@, pid, "/uid_map")
                &&& namespace::maps_nobody_to(second.content@, q.host_uid as nat)
                &&& namespace::is_proc_file(third.path@, pid, "/gid_map")
                &&& namespace::maps_nobody_to(third.content@, q.host_gid as nat)
            }
        },
{
    assert(goes_on(states, events, actions, n));
    if actions[n] is SignalChild {
        children_go_on_contained(states, events, actions, n);
        lemma_past_is_known(states, events, actions, n - 3);
        let req = states[n - 3]->Join_req;
        let child = states[n - 3]->Join_child;
        let writes = namespace::id_map_writes(
            child.child_pid as int,
            req.host_uid as nat,
            req.host_gid as nat,
        );
        assert(actions[n - 3 + 0] matches ServerAction::WriteMap(w) && w@ == writes[0]);
        assert(actions[n - 3 + 1] matches ServerAction::WriteMap(w) && w@ == writes[1]);
        assert(actions[n - 3 + 2] matches ServerAction::WriteMap(w) && w@ == writes[2]);
        if child.child_pid > 0 {
            namespace::mappings_read_back(
                child.child_pid as int,
                req.host_uid as nat,
                req.host_gid as nat,
            );
        }
    }
}

/// The answer is for the child that was made: the number in it is that of the child,
/// and with it come the handle of the child and the reading ends of the two pipes that
/// were made for it, in this order.
#[verifier::spinoff_prover]
pub proof fn answers_are_for_the_child_made(
    states: Seq<ServerState>,
    events: Seq<ServerEvent>,
    actions: Seq<ServerAction>,
    n: int,
)
    requires
        is_course(states, events, actions),
        0 <= n < events.len(),
    ensures
        actions[n] matches ServerAction::SendReply { payload, fds } ==> {
            &&& n >= 11
            &&& events[n - 8] matches ServerEvent::ErrorPipe(Ok(error_pipe))
            &&& events[n - 7] matches ServerEvent::StderrPipe(Ok(stderr_pipe))
            &&& events[n - 6] matches ServerEvent::Cloned(Ok(Some(made)))
            &&& payload@.len() == 5
            &&& ipc::response_in(payload@) == Some(Ok::<i32, i32>(made.child_pid))
            &&& fds@ == seq![made.pidfd, error_pipe.read_fd, stderr_pipe.read_fd]
        },
        actions[n] matches ServerAction::SendPrefix(prefix) ==> prefix@ == seq![5u8, 0, 0, 0],
{
    assert(goes_on(states, events, actions, n));
    if actions[n] is SendReply {
        lemma_child_has_joined(states, events, actions, n);
        lemma_past_is_known(states, events, actions, n - 5);
        let child = states[n]->ReplyPrefix_child;
        let payload = ipc::tagged(ipc::RESP_OK, child.child_pid);
        ipc::response_round_trip(child.child_pid, Seq::empty());
        ipc::responses_have_five_bytes(child.child_pid);
        assert(payload + Seq::<u8>::empty() =~= payload);
    }
    if actions[n] is SendPrefix {
        let child = states[n]->Signal_child;
        ipc::responses_have_five_bytes(child.child_pid);
        lemma_five_is_announced(ipc::tagged(ipc::RESP_OK, child.child_pid));
    }
}

proof fn lemma_five_is_announced(payload: Seq<u8>)
    requires
        payload.len() == 5,
    ensures
        prefix_of(payload) == seq![5u8, 0, 0, 0],
{
    reveal_with_fuel(wire::le, 5);
    assert(prefix_of(payload) =~= seq![5u8, 0, 0, 0]);
}

/// A refusal is announced with its five bytes, and reads as the error number; a
/// message that holds no request is refused with error 22.
pub proof fn refusals_read_back(
    s: ServerState,
    e: ServerEvent,
    t: ServerState,
    a: ServerAction,
    errno: i32,
)
    ensures
        refuses(t, a, errno) ==> {
            &&& a matches ServerAction::Refuse { prefix, payload }
            &&& prefix@ == seq![5u8, 0, 0, 0]
            &&& payload@.len() == 5
            &&& ipc::response_in(payload@) == Some(Err::<i32, i32>(errno))
        },
        leads_to(s, e, t, a) && e is Message ==> (a is Refuse ==> refuses(t, a, 22)),
{
    ipc::responses_have_five_bytes(errno);
    ipc::response_round_trip(errno, Seq::empty());
    let payload = ipc::tagged(ipc::RESP_ERR, errno);
    assert(payload + Seq::<u8>::empty() =~= payload);
    lemma_five_is_announced(payload);
}

/// An event that goes well leads on to the next thing to do.
pub proof fn what_goes_well_leads_on(s: ServerState, e: ServerEvent, t: ServerState, a: ServerAction)
    requires
        leads_to(s, e, t, a),
    ensures
        e matches ServerEvent::Prefix(Some(prefix)) ==> {
            &&& a matches ServerAction::ReceiveMessage { len }
            &&& len == prefix@[0] + 256 * prefix@[1] + 65_536 * prefix@[2] + 16_777_216 * prefix@[3]
        },
        e matches ServerEvent::Message(Some(message)) ==> (a is OpenEventFd <==> message.1@.len()
            >= 2 && ipc::decoded(message.0@) is Some),
        e matches ServerEvent::EventFd(Ok(_)) ==> a is OpenErrorPipe,
        e matches ServerEvent::ErrorPipe(Ok(_)) ==> a is OpenStderrPipe,
        e matches ServerEvent::StderrPipe(Ok(_)) ==> a is Clone,
        e matches ServerEvent::Cloned(Ok(None)) ==> a is RunChild,
        e matches ServerEvent::Cloned(Ok(Some(_))) ==> a is JoinCgroup,
        e matches ServerEvent::Joined(Ok(_)) ==> a is WriteMap,
        e matches ServerEvent::MapWritten(Ok(_)) ==> a is WriteMap || a is SignalChild,
        e is Signalled ==> a is SendPrefix,
        e == ServerEvent::PrefixSent(true) ==> a is SendReply,
        e is ReplySent || e is RefusalSent ==> a is ReadPrefix && t is Prefix,
        s matches ServerState::Maps { mapping, .. } ==> (mapping.next < mapping.writes@.len()
            ==> fits(s, e)),
        !(s is Maps) ==> fits(s, e),
{
    if e is Prefix && e->Prefix_0 is Some {
        let prefix = e->Prefix_0->0;
        wire::lemma_four_bytes(prefix@);
    }
}

/// What a client does: it sends the whole request with both ends of the terminal,
/// master first, then reads as many bytes as the four of the prefix announce. An
/// operation that fails ends the request with what the system said of it.
pub proof fn clients_send_and_read(s: ClientState, e: ClientEvent, t: ClientState, a: ClientAction)
    requires
        client_leads_to(s, e, t, a),
    ensures
        client_fits(s, e),
        e matches ClientEvent::PrefixSent(Ok(_)) ==> {
            &&& s matches ClientState::Prefix { payload, master_fd, slave_fd }
            &&& a matches ClientAction::SendMessage { payload: sent, fds }
            &&& sent@ == payload@
            &&& fds@ == seq![master_fd, slave_fd]
        },
        e matches ClientEvent::MessageSent(Ok(_)) ==> a is ReadReplyPrefix,
        e matches ClientEvent::ReplyPrefix(Ok(prefix)) ==> {
            &&& a matches ClientAction::ReceiveReply { len }
            &&& len == prefix@[0] + 256 * prefix@[1] + 65_536 * prefix@[2] + 16_777_216 * prefix@[3]
        },
        e matches ClientEvent::PrefixSent(Err(failure)) ==> a == ClientAction::Finish(
            Err(SandboxError::IpcError(failure)),
        ),
        e matches ClientEvent::MessageSent(Err(failure)) ==> a == ClientAction::Finish(
            Err(SandboxError::IpcError(failure)),
        ),
        e matches ClientEvent::ReplyPrefix(Err(failure)) ==> a == ClientAction::Finish(
            Err(SandboxError::IpcError(failure)),
        ),
        e matches ClientEvent::Reply(Err(failure)) ==> a == ClientAction::Finish(
            Err(SandboxError::IpcError(failure)),
        ),
{
    if e is ReplyPrefix && e->ReplyPrefix_0 is Ok {
        let prefix = e->ReplyPrefix_0->Ok_0;
        wire::lemma_four_bytes(prefix@);
    }
}

/// What a client makes of a reply: a child, if it begins with a zero and three
/// descriptors came along, which are its handle, its error pipe and its standard
/// error; an error number, if it begins with a one; and else that there is no server
/// to talk to.
pub proof fn clients_take_replies_by_their_bytes(
    s: ClientState,
    reply: (Vec<u8>, Vec<i32>),
    t: ClientState,
    a: ClientAction,
)
    requires
        client_leads_to(s, ClientEvent::Reply(Ok(reply)), t, a),
    ensures
        ({
            let b = reply.0@;
            let fds = reply.1@;
            let word = b[1] + 256 * b[2] + 65_536 * b[3] + 16_777_216 * b[4];
            let v = if word < 0x8000_0000 {
                word
            } else {
                word - 0x1_0000_0000
            };
            &&& b.len() >= 5 && b[0] == 0 && fds.len() >= 3 ==> {
                &&& a matches ClientAction::Finish(Ok(child))
                &&& child.child_pid == v
                &&& child.pidfd == fds[0]
                &&& child.err_pipe_rd == fds[1]
                &&& child.stderr_pipe_rd == fds[2]
            }
            &&& b.len() >= 5 && b[0] == 1 ==> {
                &&& a matches ClientAction::Finish(Err(SandboxError::NamespaceCloneFailed(errno)))
                &&& errno == error::known_errno(v as i32)
            }
            &&& b.len() < 5 || b[0] > 1 || (b[0] == 0 && fds.len() < 3) ==> a
                == ClientAction::Finish(Err(SandboxError::ForkServerUnavailable))
        }),
{
    ipc::what_responses_say(reply.0@);
}

/// A negative process id is an error, whose number is handed on; zero is the server;
/// any other is that of the server.
pub proof fn forks_are_told_apart(pid: i32, errno: i32)
    ensures
        pid < 0 <==> forked(pid, errno) is Err,
        pid < 0 ==> forked(pid, errno) == Err::<Option<i32>, SandboxError>(
            SandboxError::NamespaceCloneFailed(errno),
        ),
        pid == 0 <==> (forked(pid, errno) matches Ok(None)),
        pid > 0 ==> (forked(pid, errno) matches Ok(Some(server)) && server == pid),
{
}

/// What a client sends is what it was asked to: the server that gets it reads the same
/// request and the same slave, and was told the right length before.
pub proof fn clients_send_the_request_as_it_is(
    q: SpawnRequestView,
    master_fd: i32,
    slave_fd: i32,
    s: ClientState,
    a: ClientAction,
    t: ClientState,
    b: ClientAction,
)
    requires
        q.encodable(),
        q.encoded().len() < 0x1_0000_0000,
        client_begins(q, master_fd, slave_fd, true, s, a),
        client_leads_to(s, ClientEvent::PrefixSent(Ok(())), t, b),
    ensures
        b matches ClientAction::SendMessage { payload, fds } && {
            &&& ipc::decoded(payload@) == Some(q)
            &&& fds@ == seq![master_fd, slave_fd]
            &&& a matches ClientAction::SendPrefix(prefix)
            &&& prefix@.len() == 4
            &&& prefix@[0] + 256 * prefix@[1] + 65_536 * prefix@[2] + 16_777_216 * prefix@[3]
                == payload@.len()
        },
{
    prefix_announces_the_length(q.encoded());
    wire::lemma_four_bytes(prefix_of(q.encoded()));
    ipc::decoding_undoes_encoding(q, Seq::empty());
}

/// The server takes whatever can come of the action it has asked for, good or bad, and
/// nothing else.
pub proof fn what_was_asked_for_is_accepted(s: ServerState, e: ServerEvent)
    ensures
        s is Prefix ==> (fits(s, e) <==> e is Prefix),
        s is Message ==> (fits(s, e) <==> e is Message),
        s is EventFd ==> (fits(s, e) <==> e is EventFd),
        s is ErrorPipe ==> (fits(s, e) <==> e is ErrorPipe),
        s is StderrPipe ==> (fits(s, e) <==> e is StderrPipe),
        s is Clone ==> (fits(s, e) <==> e is Cloned),
        s is Join ==> (fits(s, e) <==> e is Joined),
        s matches ServerState::Maps { mapping, .. } ==> (fits(s, e) <==> e is MapWritten
            && mapping.next < mapping.writes@.len()),
        s is Signal ==> (fits(s, e) <==> e is Signalled),
        s is ReplyPrefix ==> (fits(s, e) <==> e is PrefixSent),
        s is Reply ==> (fits(s, e) <==> e is ReplySent),
        s is Refusal ==> (fits(s, e) <==> e is RefusalSent),
        s is Over ==> !fits(s, e),
{
}

/// A client takes whatever can come of the action it has asked for, good or bad, and
/// nothing else.
pub proof fn what_a_client_asked_for_is_accepted(s: ClientState, e: ClientEvent)
    ensures
        s is Prefix ==> (client_fits(s, e) <==> e is PrefixSent),
        s is Message ==> (client_fits(s, e) <==> e is MessageSent),
        s is ReplyPrefix ==> (client_fits(s, e) <==> e is ReplyPrefix),
        s is Reply ==> (client_fits(s, e) <==> e is Reply),
        s is Over ==> !client_fits(s, e),
{
}

} // verus!
