//! System call numbers of the x86-64 Linux ABI, and the lists that the
//! seccomp policy is made of.
use vstd::prelude::*;

verus! {
pub const SYS_READ: u32 = 0;
pub const SYS_WRITE: u32 = 1;
pub const SYS_OPEN: u32 = 2;
pub const SYS_CLOSE: u32 = 3;
pub const SYS_STAT: u32 = 4;
pub const SYS_FSTAT: u32 = 5;
pub const SYS_LSTAT: u32 = 6;
pub const SYS_POLL: u32 = 7;
pub const SYS_LSEEK: u32 = 8;
pub const SYS_MMAP: u32 = 9;
pub const SYS_MPROTECT: u32 = 10;
pub const SYS_MUNMAP: u32 = 11;
pub const SYS_BRK: u32 = 12;
pub const SYS_RT_SIGACTION: u32 = 13;
pub const SYS_RT_SIGPROCMASK: u32 = 14;
pub const SYS_RT_SIGRETURN: u32 = 15;
pub const SYS_IOCTL: u32 = 16;
pub const SYS_PREAD64: u32 = 17;
pub const SYS_PWRITE64: u32 = 18;
pub const SYS_READV: u32 = 19;
pub const SYS_WRITEV: u32 = 20;
pub const SYS_ACCESS: u32 = 21;
pub const SYS_PIPE: u32 = 22;
pub const SYS_SELECT: u32 = 23;
pub const SYS_SCHED_YIELD: u32 = 24;
pub const SYS_MREMAP: u32 = 25;
pub const SYS_MSYNC: u32 = 26;
pub const SYS_MINCORE: u32 = 27;
pub const SYS_MADVISE: u32 = 28;
pub const SYS_DUP: u32 = 32;
pub const SYS_DUP2: u32 = 33;
pub const SYS_NANOSLEEP: u32 = 35;
pub const SYS_GETITIMER: u32 = 36;
pub const SYS_ALARM: u32 = 37;
pub const SYS_SETITIMER: u32 = 38;
pub const SYS_GETPID: u32 = 39;
pub const SYS_SENDFILE: u32 = 40;
pub const SYS_SOCKET: u32 = 41;
pub const SYS_CONNECT: u32 = 42;
pub const SYS_ACCEPT: u32 = 43;
pub const SYS_SENDTO: u32 = 44;
pub const SYS_RECVFROM: u32 = 45;
pub const SYS_SENDMSG: u32 = 46;
pub const SYS_RECVMSG: u32 = 47;
pub const SYS_SHUTDOWN: u32 = 48;
pub const SYS_BIND: u32 = 49;
pub const SYS_LISTEN: u32 = 50;
pub const SYS_GETSOCKNAME: u32 = 51;
pub const SYS_GETPEERNAME: u32 = 52;
pub const SYS_SOCKETPAIR: u32 = 53;
pub const SYS_SETSOCKOPT: u32 = 54;
pub const SYS_GETSOCKOPT: u32 = 55;
pub const SYS_CLONE: u32 = 56;
pub const SYS_EXECVE: u32 = 59;
pub const SYS_EXIT: u32 = 60;
pub const SYS_WAIT4: u32 = 61;
pub const SYS_KILL: u32 = 62;
pub const SYS_UNAME: u32 = 63;
pub const SYS_FCNTL: u32 = 72;
pub const SYS_FLOCK: u32 = 73;
pub const SYS_FSYNC: u32 = 74;
pub const SYS_FDATASYNC: u32 = 75;
pub const SYS_TRUNCATE: u32 = 76;
pub const SYS_FTRUNCATE: u32 = 77;
pub const SYS_GETDENTS: u32 = 78;
pub const SYS_GETCWD: u32 = 79;
pub const SYS_CHDIR: u32 = 80;
pub const SYS_FCHDIR: u32 = 81;
pub const SYS_RENAME: u32 = 82;
pub const SYS_MKDIR: u32 = 83;
pub const SYS_RMDIR: u32 = 84;
pub const SYS_CREAT: u32 = 85;
pub const SYS_LINK: u32 = 86;
pub const SYS_UNLINK: u32 = 87;
pub const SYS_SYMLINK: u32 = 88;
pub const SYS_READLINK: u32 = 89;
pub const SYS_CHMOD: u32 = 90;
pub const SYS_FCHMOD: u32 = 91;
pub const SYS_CHOWN: u32 = 92;
pub const SYS_FCHOWN: u32 = 93;
pub const SYS_LCHOWN: u32 = 94;
pub const SYS_GETTIMEOFDAY: u32 = 96;
pub const SYS_GETRLIMIT: u32 = 97;
pub const SYS_GETRUSAGE: u32 = 98;
pub const SYS_SYSINFO: u32 = 99;
pub const SYS_TIMES: u32 = 100;
pub const SYS_PTRACE: u32 = 101;
pub const SYS_GETUID: u32 = 102;
pub const SYS_GETGID: u32 = 104;
pub const SYS_GETEUID: u32 = 107;
pub const SYS_GETEGID: u32 = 108;
pub const SYS_GETPPID: u32 = 110;
pub const SYS_GETPGRP: u32 = 111;
pub const SYS_GETGROUPS: u32 = 115;
pub const SYS_GETPGID: u32 = 121;
pub const SYS_GETSID: u32 = 124;
pub const SYS_RT_SIGPENDING: u32 = 127;
pub const SYS_RT_SIGTIMEDWAIT: u32 = 128;
pub const SYS_SIGALTSTACK: u32 = 131;
pub const SYS_UTIME: u32 = 132;
pub const SYS_STATFS: u32 = 137;
pub const SYS_FSTATFS: u32 = 138;
pub const SYS_GETPRIORITY: u32 = 140;
pub const SYS_SCHED_GETSCHEDULER: u32 = 145;
pub const SYS_SCHED_GET_PRIORITY_MAX: u32 = 146;
pub const SYS_SCHED_GET_PRIORITY_MIN: u32 = 147;
pub const SYS_MLOCK: u32 = 149;
pub const SYS_MUNLOCK: u32 = 150;
pub const SYS_PRCTL: u32 = 157;
pub const SYS_ARCH_PRCTL: u32 = 158;
pub const SYS_SETRLIMIT: u32 = 160;
pub const SYS_GETTID: u32 = 186;
pub const SYS_TKILL: u32 = 200;
pub const SYS_TIME: u32 = 201;
pub const SYS_FUTEX: u32 = 202;
pub const SYS_SCHED_GETAFFINITY: u32 = 204;
pub const SYS_EPOLL_CREATE: u32 = 213;
pub const SYS_GETDENTS64: u32 = 217;
pub const SYS_SET_TID_ADDRESS: u32 = 218;
pub const SYS_CLOCK_GETTIME: u32 = 228;
pub const SYS_CLOCK_GETRES: u32 = 229;
pub const SYS_CLOCK_NANOSLEEP: u32 = 230;
pub const SYS_EXIT_GROUP: u32 = 231;
pub const SYS_EPOLL_WAIT: u32 = 232;
pub const SYS_EPOLL_CTL: u32 = 233;
pub const SYS_TGKILL: u32 = 234;
pub const SYS_UTIMES: u32 = 235;
pub const SYS_KEXEC_LOAD: u32 = 246;
pub const SYS_WAITID: u32 = 247;
pub const SYS_INOTIFY_ADD_WATCH: u32 = 254;
pub const SYS_INOTIFY_RM_WATCH: u32 = 255;
pub const SYS_OPENAT: u32 = 257;
pub const SYS_MKDIRAT: u32 = 258;
pub const SYS_FCHOWNAT: u32 = 260;
pub const SYS_FUTIMESAT: u32 = 261;
pub const SYS_NEWFSTATAT: u32 = 262;
pub const SYS_UNLINKAT: u32 = 263;
pub const SYS_RENAMEAT: u32 = 264;
pub const SYS_LINKAT: u32 = 265;
pub const SYS_SYMLINKAT: u32 = 266;
pub const SYS_READLINKAT: u32 = 267;
pub const SYS_FCHMODAT: u32 = 268;
pub const SYS_FACCESSAT: u32 = 269;
pub const SYS_PSELECT6: u32 = 270;
pub const SYS_PPOLL: u32 = 271;
pub const SYS_SET_ROBUST_LIST: u32 = 273;
pub const SYS_GET_ROBUST_LIST: u32 = 274;
pub const SYS_UTIMENSAT: u32 = 280;
pub const SYS_EPOLL_PWAIT: u32 = 281;
pub const SYS_TIMERFD_CREATE: u32 = 283;
pub const SYS_EVENTFD: u32 = 284;
pub const SYS_FALLOCATE: u32 = 285;
pub const SYS_TIMERFD_SETTIME: u32 = 286;
pub const SYS_TIMERFD_GETTIME: u32 = 287;
pub const SYS_ACCEPT4: u32 = 288;
pub const SYS_EVENTFD2: u32 = 290;
pub const SYS_EPOLL_CREATE1: u32 = 291;
pub const SYS_DUP3: u32 = 292;
pub const SYS_PIPE2: u32 = 293;
pub const SYS_INOTIFY_INIT1: u32 = 294;
pub const SYS_RECVMMSG: u32 = 299;
pub const SYS_PRLIMIT64: u32 = 302;
pub const SYS_SENDMMSG: u32 = 307;
pub const SYS_PROCESS_VM_READV: u32 = 310;
pub const SYS_PROCESS_VM_WRITEV: u32 = 311;
pub const SYS_RENAMEAT2: u32 = 316;
pub const SYS_SECCOMP: u32 = 317;
pub const SYS_GETRANDOM: u32 = 318;
pub const SYS_MEMFD_CREATE: u32 = 319;
pub const SYS_KEXEC_FILE_LOAD: u32 = 320;
pub const SYS_EXECVEAT: u32 = 322;
pub const SYS_STATX: u32 = 332;
pub const SYS_CLONE3: u32 = 435;
pub const SYS_CLOSE_RANGE: u32 = 436;
pub const SYS_FACCESSAT2: u32 = 439;
pub const SYS_EPOLL_PWAIT2: u32 = 441;
pub const SYS_FUTEX_WAITV: u32 = 449;

/// System calls that end the process at once.
pub open spec fn kill_nrs() -> Seq<u32> {
    seq![
        SYS_KILL,
        SYS_PTRACE,
        SYS_PROCESS_VM_READV,
        SYS_PROCESS_VM_WRITEV,
        SYS_KEXEC_LOAD,
        SYS_KEXEC_FILE_LOAD,
    ]
}

/// Process lifecycle.
pub open spec fn process_nrs() -> Seq<u32> {
    seq![
        SYS_EXECVE,
        SYS_EXECVEAT,
        SYS_EXIT,
        SYS_EXIT_GROUP,
        SYS_GETPID,
        SYS_GETPPID,
        SYS_GETTID,
        SYS_SET_TID_ADDRESS,
        SYS_ARCH_PRCTL,
    ]
}

fn process() -> (nrs: Vec<u32>)
    ensures
        nrs@ == process_nrs(),
{
    let nrs = vec![
        SYS_EXECVE,
        SYS_EXECVEAT,
        SYS_EXIT,
        SYS_EXIT_GROUP,
        SYS_GETPID,
        SYS_GETPPID,
        SYS_GETTID,
        SYS_SET_TID_ADDRESS,
        SYS_ARCH_PRCTL,
    ];
    assert(nrs@ =~= process_nrs());
    nrs
}

/// Memory management.
pub open spec fn memory_nrs() -> Seq<u32> {
    seq![
        SYS_BRK,
        SYS_MMAP,
        SYS_MUNMAP,
        SYS_MPROTECT,
        SYS_MREMAP,
        SYS_MADVISE,
        SYS_MSYNC,
        SYS_MINCORE,
        SYS_MLOCK,
        SYS_MUNLOCK,
    ]
}

fn memory() -> (nrs: Vec<u32>)
    ensures
        nrs@ == memory_nrs(),
{
    let nrs = vec![
        SYS_BRK,
        SYS_MMAP,
        SYS_MUNMAP,
        SYS_MPROTECT,
        SYS_MREMAP,
        SYS_MADVISE,
        SYS_MSYNC,
        SYS_MINCORE,
        SYS_MLOCK,
        SYS_MUNLOCK,
    ];
    assert(nrs@ =~= memory_nrs());
    nrs
}

/// Basic file I/O.
pub open spec fn file_io_nrs() -> Seq<u32> {
    seq![
        SYS_READ,
        SYS_WRITE,
        SYS_READV,
        SYS_WRITEV,
        SYS_PREAD64,
        SYS_PWRITE64,
        SYS_OPEN,
        SYS_OPENAT,
        SYS_CREAT,
        SYS_CLOSE,
        SYS_CLOSE_RANGE,
        SYS_LSEEK,
    ]
}

fn file_io() -> (nrs: Vec<u32>)
    ensures
        nrs@ == file_io_nrs(),
{
    let nrs = vec![
        SYS_READ,
        SYS_WRITE,
        SYS_READV,
        SYS_WRITEV,
        SYS_PREAD64,
        SYS_PWRITE64,
        SYS_OPEN,
        SYS_OPENAT,
        SYS_CREAT,
        SYS_CLOSE,
        SYS_CLOSE_RANGE,
        SYS_LSEEK,
    ];
    assert(nrs@ =~= file_io_nrs());
    nrs
}

/// File metadata.
pub open spec fn metadata_nrs() -> Seq<u32> {
    seq![
        SYS_STAT,
        SYS_FSTAT,
        SYS_LSTAT,
        SYS_NEWFSTATAT,
        SYS_STATX,
        SYS_ACCESS,
        SYS_FACCESSAT,
        SYS_FACCESSAT2,
        SYS_READLINK,
        SYS_READLINKAT,
        SYS_STATFS,
        SYS_FSTATFS,
    ]
}

fn metadata() -> (nrs: Vec<u32>)
    ensures
        nrs@ == metadata_nrs(),
{
    let nrs = vec![
        SYS_STAT,
        SYS_FSTAT,
        SYS_LSTAT,
        SYS_NEWFSTATAT,
        SYS_STATX,
        SYS_ACCESS,
        SYS_FACCESSAT,
        SYS_FACCESSAT2,
        SYS_READLINK,
        SYS_READLINKAT,
        SYS_STATFS,
        SYS_FSTATFS,
    ];
    assert(nrs@ =~= metadata_nrs());
    nrs
}

/// File descriptors.
pub open spec fn descriptors_nrs() -> Seq<u32> {
    seq![
        SYS_DUP,
        SYS_DUP2,
        SYS_DUP3,
        SYS_PIPE,
        SYS_PIPE2,
        SYS_FCNTL,
        SYS_IOCTL,
    ]
}

fn descriptors() -> (nrs: Vec<u32>)
    ensures
        nrs@ == descriptors_nrs(),
{
    let nrs = vec![
        SYS_DUP,
        SYS_DUP2,
        SYS_DUP3,
        SYS_PIPE,
        SYS_PIPE2,
        SYS_FCNTL,
        SYS_IOCTL,
    ];
    assert(nrs@ =~= descriptors_nrs());
    nrs
}

/// Directory and file system operations.
pub open spec fn filesystem_nrs() -> Seq<u32> {
    seq![
        SYS_GETDENTS,
        SYS_GETDENTS64,
        SYS_CHDIR,
        SYS_FCHDIR,
        SYS_GETCWD,
        SYS_MKDIR,
        SYS_MKDIRAT,
        SYS_RMDIR,
        SYS_RENAME,
        SYS_RENAMEAT,
        SYS_RENAMEAT2,
        SYS_UNLINK,
        SYS_UNLINKAT,
        SYS_SYMLINK,
        SYS_SYMLINKAT,
        SYS_LINK,
        SYS_LINKAT,
        SYS_CHMOD,
        SYS_FCHMOD,
        SYS_FCHMODAT,
        SYS_CHOWN,
        SYS_FCHOWN,
        SYS_LCHOWN,
        SYS_FCHOWNAT,
        SYS_UTIME,
        SYS_UTIMES,
        SYS_FUTIMESAT,
        SYS_UTIMENSAT,
        SYS_TRUNCATE,
        SYS_FTRUNCATE,
        SYS_SENDFILE,
        SYS_FALLOCATE,
        SYS_FLOCK,
        SYS_FSYNC,
        SYS_FDATASYNC,
    ]
}

fn filesystem() -> (nrs: Vec<u32>)
    ensures
        nrs@ == filesystem_nrs(),
{
    let nrs = vec![
        SYS_GETDENTS,
        SYS_GETDENTS64,
        SYS_CHDIR,
        SYS_FCHDIR,
        SYS_GETCWD,
        SYS_MKDIR,
        SYS_MKDIRAT,
        SYS_RMDIR,
        SYS_RENAME,
        SYS_RENAMEAT,
        SYS_RENAMEAT2,
        SYS_UNLINK,
        SYS_UNLINKAT,
        SYS_SYMLINK,
        SYS_SYMLINKAT,
        SYS_LINK,
        SYS_LINKAT,
        SYS_CHMOD,
        SYS_FCHMOD,
        SYS_FCHMODAT,
        SYS_CHOWN,
        SYS_FCHOWN,
        SYS_LCHOWN,
        SYS_FCHOWNAT,
        SYS_UTIME,
        SYS_UTIMES,
        SYS_FUTIMESAT,
        SYS_UTIMENSAT,
        SYS_TRUNCATE,
        SYS_FTRUNCATE,
        SYS_SENDFILE,
        SYS_FALLOCATE,
        SYS_FLOCK,
        SYS_FSYNC,
        SYS_FDATASYNC,
    ];
    assert(nrs@ =~= filesystem_nrs());
    nrs
}

/// Signal handling. `kill` itself is on the hard-kill list.
pub open spec fn signals_nrs() -> Seq<u32> {
    seq![
        SYS_RT_SIGACTION,
        SYS_RT_SIGPROCMASK,
        SYS_RT_SIGRETURN,
        SYS_RT_SIGTIMEDWAIT,
        SYS_RT_SIGPENDING,
        SYS_SIGALTSTACK,
        SYS_TGKILL,
        SYS_TKILL,
    ]
}

fn signals() -> (nrs: Vec<u32>)
    ensures
        nrs@ == signals_nrs(),
{
    let nrs = vec![
        SYS_RT_SIGACTION,
        SYS_RT_SIGPROCMASK,
        SYS_RT_SIGRETURN,
        SYS_RT_SIGTIMEDWAIT,
        SYS_RT_SIGPENDING,
        SYS_SIGALTSTACK,
        SYS_TGKILL,
        SYS_TKILL,
    ];
    assert(nrs@ =~= signals_nrs());
    nrs
}

/// Threading and synchronisation.
pub open spec fn threads_nrs() -> Seq<u32> {
    seq![
        SYS_CLONE,
        SYS_FUTEX,
        SYS_FUTEX_WAITV,
        SYS_GET_ROBUST_LIST,
        SYS_SET_ROBUST_LIST,
    ]
}

fn threads() -> (nrs: Vec<u32>)
    ensures
        nrs@ == threads_nrs(),
{
    let nrs = vec![
        SYS_CLONE,
        SYS_FUTEX,
        SYS_FUTEX_WAITV,
        SYS_GET_ROBUST_LIST,
        SYS_SET_ROBUST_LIST,
    ];
    assert(nrs@ =~= threads_nrs());
    nrs
}

/// Clocks and timers.
pub open spec fn time_nrs() -> Seq<u32> {
    seq![
        SYS_NANOSLEEP,
        SYS_CLOCK_NANOSLEEP,
        SYS_CLOCK_GETTIME,
        SYS_CLOCK_GETRES,
        SYS_GETTIMEOFDAY,
        SYS_TIME,
        SYS_TIMES,
        SYS_SETITIMER,
        SYS_GETITIMER,
        SYS_ALARM,
    ]
}

fn time() -> (nrs: Vec<u32>)
    ensures
        nrs@ == time_nrs(),
{
    let nrs = vec![
        SYS_NANOSLEEP,
        SYS_CLOCK_NANOSLEEP,
        SYS_CLOCK_GETTIME,
        SYS_CLOCK_GETRES,
        SYS_GETTIMEOFDAY,
        SYS_TIME,
        SYS_TIMES,
        SYS_SETITIMER,
        SYS_GETITIMER,
        SYS_ALARM,
    ];
    assert(nrs@ =~= time_nrs());
    nrs
}

/// I/O multiplexing.
pub open spec fn multiplexing_nrs() -> Seq<u32> {
    seq![
        SYS_SELECT,
        SYS_PSELECT6,
        SYS_POLL,
        SYS_PPOLL,
        SYS_EPOLL_CREATE,
        SYS_EPOLL_CREATE1,
        SYS_EPOLL_CTL,
        SYS_EPOLL_WAIT,
        SYS_EPOLL_PWAIT,
        SYS_EPOLL_PWAIT2,
    ]
}

fn multiplexing() -> (nrs: Vec<u32>)
    ensures
        nrs@ == multiplexing_nrs(),
{
    let nrs = vec![
        SYS_SELECT,
        SYS_PSELECT6,
        SYS_POLL,
        SYS_PPOLL,
        SYS_EPOLL_CREATE,
        SYS_EPOLL_CREATE1,
        SYS_EPOLL_CTL,
        SYS_EPOLL_WAIT,
        SYS_EPOLL_PWAIT,
        SYS_EPOLL_PWAIT2,
    ];
    assert(nrs@ =~= multiplexing_nrs());
    nrs
}

/// Waiting for children.
pub open spec fn waiting_nrs() -> Seq<u32> {
    seq![
        SYS_WAIT4,
        SYS_WAITID,
    ]
}

fn waiting() -> (nrs: Vec<u32>)
    ensures
        nrs@ == waiting_nrs(),
{
    let nrs = vec![
        SYS_WAIT4,
        SYS_WAITID,
    ];
    assert(nrs@ =~= waiting_nrs());
    nrs
}

/// Networking on AF_UNIX sockets; `socket` itself is filtered on its domain.
pub open spec fn networking_nrs() -> Seq<u32> {
    seq![
        SYS_SOCKET,
        SYS_BIND,
        SYS_CONNECT,
        SYS_LISTEN,
        SYS_ACCEPT,
        SYS_ACCEPT4,
        SYS_SENDTO,
        SYS_RECVFROM,
        SYS_SENDMSG,
        SYS_RECVMSG,
        SYS_SENDMMSG,
        SYS_RECVMMSG,
        SYS_SHUTDOWN,
        SYS_GETSOCKNAME,
        SYS_GETPEERNAME,
        SYS_GETSOCKOPT,
        SYS_SETSOCKOPT,
        SYS_SOCKETPAIR,
    ]
}

fn networking() -> (nrs: Vec<u32>)
    ensures
        nrs@ == networking_nrs(),
{
    let nrs = vec![
        SYS_SOCKET,
        SYS_BIND,
        SYS_CONNECT,
        SYS_LISTEN,
        SYS_ACCEPT,
        SYS_ACCEPT4,
        SYS_SENDTO,
        SYS_RECVFROM,
        SYS_SENDMSG,
        SYS_RECVMSG,
        SYS_SENDMMSG,
        SYS_RECVMMSG,
        SYS_SHUTDOWN,
        SYS_GETSOCKNAME,
        SYS_GETPEERNAME,
        SYS_GETSOCKOPT,
        SYS_SETSOCKOPT,
        SYS_SOCKETPAIR,
    ];
    assert(nrs@ =~= networking_nrs());
    nrs
}

/// Identity (read-only).
pub open spec fn identity_nrs() -> Seq<u32> {
    seq![
        SYS_GETUID,
        SYS_GETGID,
        SYS_GETEUID,
        SYS_GETEGID,
        SYS_GETGROUPS,
        SYS_GETPGRP,
        SYS_GETPGID,
        SYS_GETSID,
    ]
}

fn identity() -> (nrs: Vec<u32>)
    ensures
        nrs@ == identity_nrs(),
{
    let nrs = vec![
        SYS_GETUID,
        SYS_GETGID,
        SYS_GETEUID,
        SYS_GETEGID,
        SYS_GETGROUPS,
        SYS_GETPGRP,
        SYS_GETPGID,
        SYS_GETSID,
    ];
    assert(nrs@ =~= identity_nrs());
    nrs
}

/// Resource limits.
pub open spec fn limits_nrs() -> Seq<u32> {
    seq![
        SYS_GETRLIMIT,
        SYS_PRLIMIT64,
        SYS_SETRLIMIT,
        SYS_GETRUSAGE,
    ]
}

fn limits() -> (nrs: Vec<u32>)
    ensures
        nrs@ == limits_nrs(),
{
    let nrs = vec![
        SYS_GETRLIMIT,
        SYS_PRLIMIT64,
        SYS_SETRLIMIT,
        SYS_GETRUSAGE,
    ];
    assert(nrs@ =~= limits_nrs());
    nrs
}

/// Scheduling.
pub open spec fn scheduling_nrs() -> Seq<u32> {
    seq![
        SYS_SCHED_YIELD,
        SYS_SCHED_GETAFFINITY,
        SYS_SCHED_GETSCHEDULER,
        SYS_SCHED_GET_PRIORITY_MAX,
        SYS_SCHED_GET_PRIORITY_MIN,
        SYS_GETPRIORITY,
    ]
}

fn scheduling() -> (nrs: Vec<u32>)
    ensures
        nrs@ == scheduling_nrs(),
{
    let nrs = vec![
        SYS_SCHED_YIELD,
        SYS_SCHED_GETAFFINITY,
        SYS_SCHED_GETSCHEDULER,
        SYS_SCHED_GET_PRIORITY_MAX,
        SYS_SCHED_GET_PRIORITY_MIN,
        SYS_GETPRIORITY,
    ];
    assert(nrs@ =~= scheduling_nrs());
    nrs
}

/// Everything else, `seccomp` included: a process may restrict itself further.
pub open spec fn misc_nrs() -> Seq<u32> {
    seq![
        SYS_UNAME,
        SYS_GETRANDOM,
        SYS_MEMFD_CREATE,
        SYS_EVENTFD,
        SYS_EVENTFD2,
        SYS_TIMERFD_CREATE,
        SYS_TIMERFD_SETTIME,
        SYS_TIMERFD_GETTIME,
        SYS_INOTIFY_INIT1,
        SYS_INOTIFY_ADD_WATCH,
        SYS_INOTIFY_RM_WATCH,
        SYS_SYSINFO,
        SYS_PRCTL,
        SYS_SECCOMP,
    ]
}

fn misc() -> (nrs: Vec<u32>)
    ensures
        nrs@ == misc_nrs(),
{
    let nrs = vec![
        SYS_UNAME,
        SYS_GETRANDOM,
        SYS_MEMFD_CREATE,
        SYS_EVENTFD,
        SYS_EVENTFD2,
        SYS_TIMERFD_CREATE,
        SYS_TIMERFD_SETTIME,
        SYS_TIMERFD_GETTIME,
        SYS_INOTIFY_INIT1,
        SYS_INOTIFY_ADD_WATCH,
        SYS_INOTIFY_RM_WATCH,
        SYS_SYSINFO,
        SYS_PRCTL,
        SYS_SECCOMP,
    ];
    assert(nrs@ =~= misc_nrs());
    nrs
}

/// The allow-list: every system call that the filter lets through (`socket`
/// and `clone` only with harmless arguments).
pub open spec fn allowed_nrs() -> Seq<u32> {
    process_nrs() + memory_nrs() + file_io_nrs() + metadata_nrs() + descriptors_nrs() + filesystem_nrs() + signals_nrs() + threads_nrs() + time_nrs() + multiplexing_nrs() + waiting_nrs() + networking_nrs() + identity_nrs() + limits_nrs() + scheduling_nrs() + misc_nrs()
}

/// The allow-list as a vector.
pub fn allowed_syscall_nrs() -> (nrs: Vec<u32>)
    ensures
        nrs@ == allowed_nrs(),
{
    let mut nrs: Vec<u32> = process();
    nrs.append(&mut memory());
    nrs.append(&mut file_io());
    nrs.append(&mut metadata());
    nrs.append(&mut descriptors());
    nrs.append(&mut filesystem());
    nrs.append(&mut signals());
    nrs.append(&mut threads());
    nrs.append(&mut time());
    nrs.append(&mut multiplexing());
    nrs.append(&mut waiting());
    nrs.append(&mut networking());
    nrs.append(&mut identity());
    nrs.append(&mut limits());
    nrs.append(&mut scheduling());
    nrs.append(&mut misc());
    nrs
}

// ---- Laws ----

/// The system calls that the filter lets through, by their numbers on x86-64.
pub open spec fn is_listed(nr: u32) -> bool {
    // read, write, open, close, stat, fstat
    ||| nr == 0 || nr == 1 || nr == 2 || nr == 3 || nr == 4 || nr == 5
    // lstat, poll, lseek, mmap, mprotect, munmap
    ||| nr == 6 || nr == 7 || nr == 8 || nr == 9 || nr == 10 || nr == 11
    // brk, rt_sigaction, rt_sigprocmask, rt_sigreturn, ioctl, pread64
    ||| nr == 12 || nr == 13 || nr == 14 || nr == 15 || nr == 16 || nr == 17
    // pwrite64, readv, writev, access, pipe, select
    ||| nr == 18 || nr == 19 || nr == 20 || nr == 21 || nr == 22 || nr == 23
    // sched_yield, mremap, msync, mincore, madvise, dup
    ||| nr == 24 || nr == 25 || nr == 26 || nr == 27 || nr == 28 || nr == 32
    // dup2, nanosleep, getitimer, alarm, setitimer, getpid
    ||| nr == 33 || nr == 35 || nr == 36 || nr == 37 || nr == 38 || nr == 39
    // sendfile, socket, connect, accept, sendto, recvfrom
    ||| nr == 40 || nr == 41 || nr == 42 || nr == 43 || nr == 44 || nr == 45
    // sendmsg, recvmsg, shutdown, bind, listen, getsockname
    ||| nr == 46 || nr == 47 || nr == 48 || nr == 49 || nr == 50 || nr == 51
    // getpeername, socketpair, setsockopt, getsockopt, clone, execve
    ||| nr == 52 || nr == 53 || nr == 54 || nr == 55 || nr == 56 || nr == 59
    // exit, wait4, uname, fcntl, flock, fsync
    ||| nr == 60 || nr == 61 || nr == 63 || nr == 72 || nr == 73 || nr == 74
    // fdatasync, truncate, ftruncate, getdents, getcwd, chdir
    ||| nr == 75 || nr == 76 || nr == 77 || nr == 78 || nr == 79 || nr == 80
    // fchdir, rename, mkdir, rmdir, creat, link
    ||| nr == 81 || nr == 82 || nr == 83 || nr == 84 || nr == 85 || nr == 86
    // unlink, symlink, readlink, chmod, fchmod, chown
    ||| nr == 87 || nr == 88 || nr == 89 || nr == 90 || nr == 91 || nr == 92
    // fchown, lchown, gettimeofday, getrlimit, getrusage, sysinfo
    ||| nr == 93 || nr == 94 || nr == 96 || nr == 97 || nr == 98 || nr == 99
    // times, getuid, getgid, geteuid, getegid, getppid
    ||| nr == 100 || nr == 102 || nr == 104 || nr == 107 || nr == 108 || nr == 110
    // getpgrp, getgroups, getpgid, getsid, rt_sigpending, rt_sigtimedwait
    ||| nr == 111 || nr == 115 || nr == 121 || nr == 124 || nr == 127 || nr == 128
    // sigaltstack, utime, statfs, fstatfs, getpriority, sched_getscheduler
    ||| nr == 131 || nr == 132 || nr == 137 || nr == 138 || nr == 140 || nr == 145
    // sched_get_priority_max, sched_get_priority_min, mlock, munlock, prctl, arch_prctl
    ||| nr == 146 || nr == 147 || nr == 149 || nr == 150 || nr == 157 || nr == 158
    // setrlimit, gettid, tkill, time, futex, sched_getaffinity
    ||| nr == 160 || nr == 186 || nr == 200 || nr == 201 || nr == 202 || nr == 204
    // epoll_create, getdents64, set_tid_address, clock_gettime, clock_getres, clock_nanosleep
    ||| nr == 213 || nr == 217 || nr == 218 || nr == 228 || nr == 229 || nr == 230
    // exit_group, epoll_wait, epoll_ctl, tgkill, utimes, waitid
    ||| nr == 231 || nr == 232 || nr == 233 || nr == 234 || nr == 235 || nr == 247
    // inotify_add_watch, inotify_rm_watch, openat, mkdirat, fchownat, futimesat
    ||| nr == 254 || nr == 255 || nr == 257 || nr == 258 || nr == 260 || nr == 261
    // newfstatat, unlinkat, renameat, linkat, symlinkat, readlinkat
    ||| nr == 262 || nr == 263 || nr == 264 || nr == 265 || nr == 266 || nr == 267
    // fchmodat, faccessat, pselect6, ppoll, set_robust_list, get_robust_list
    ||| nr == 268 || nr == 269 || nr == 270 || nr == 271 || nr == 273 || nr == 274
    // utimensat, epoll_pwait, timerfd_create, eventfd, fallocate, timerfd_settime
    ||| nr == 280 || nr == 281 || nr == 283 || nr == 284 || nr == 285 || nr == 286
    // timerfd_gettime, accept4, eventfd2, epoll_create1, dup3, pipe2
    ||| nr == 287 || nr == 288 || nr == 290 || nr == 291 || nr == 292 || nr == 293
    // inotify_init1, recvmmsg, prlimit64, sendmmsg, renameat2, seccomp
    ||| nr == 294 || nr == 299 || nr == 302 || nr == 307 || nr == 316 || nr == 317
    // getrandom, memfd_create, execveat, statx, close_range, faccessat2
    ||| nr == 318 || nr == 319 || nr == 322 || nr == 332 || nr == 436 || nr == 439
    // epoll_pwait2, futex_waitv
    ||| nr == 441 || nr == 449
}

/// The system calls for which the filter kills, by their numbers on x86-64: kill,
/// ptrace, process_vm_readv, process_vm_writev, kexec_load and kexec_file_load.
pub open spec fn is_deadly(nr: u32) -> bool {
    nr == 62 || nr == 101 || nr == 310 || nr == 311 || nr == 246 || nr == 320
}

proof fn lemma_kill(nr: u32)
    ensures
        kill_nrs().contains(nr) <==> (nr == 62 || nr == 101 || nr == 310 || nr == 311 || nr == 246 || nr == 320),
{
    let s = kill_nrs();
    assert(s[0] == 62);
    assert(s[1] == 101);
    assert(s[2] == 310);
    assert(s[3] == 311);
    assert(s[4] == 246);
    assert(s[5] == 320);
    if s.contains(nr) {
        let i = choose|i: int| 0 <= i < s.len() && s[i] == nr;
        assert(s[i] == nr);
    }
}

proof fn lemma_process(nr: u32)
    ensures
        process_nrs().contains(nr) <==> (nr == 59 || nr == 322 || nr == 60 || nr == 231 || nr == 39 || nr == 110 || nr == 186 || nr == 218 || nr == 158),
{
    let s = process_nrs();
    assert(s[0] == 59);
    assert(s[1] == 322);
    assert(s[2] == 60);
    assert(s[3] == 231);
    assert(s[4] == 39);
    assert(s[5] == 110);
    assert(s[6] == 186);
    assert(s[7] == 218);
    assert(s[8] == 158);
    if s.contains(nr) {
        let i = choose|i: int| 0 <= i < s.len() && s[i] == nr;
        assert(s[i] == nr);
    }
}

proof fn lemma_memory(nr: u32)
    ensures
        memory_nrs().contains(nr) <==> (nr == 12 || nr == 9 || nr == 11 || nr == 10 || nr == 25 || nr == 28 || nr == 26 || nr == 27 || nr == 149 || nr == 150),
{
    let s = memory_nrs();
    assert(s[0] == 12);
    assert(s[1] == 9);
    assert(s[2] == 11);
    assert(s[3] == 10);
    assert(s[4] == 25);
    assert(s[5] == 28);
    assert(s[6] == 26);
    assert(s[7] == 27);
    assert(s[8] == 149);
    assert(s[9] == 150);
    if s.contains(nr) {
        let i = choose|i: int| 0 <= i < s.len() && s[i] == nr;
        assert(s[i] == nr);
    }
}

proof fn lemma_file_io(nr: u32)
    ensures
        file_io_nrs().contains(nr) <==> (nr == 0 || nr == 1 || nr == 19 || nr == 20 || nr == 17 || nr == 18 || nr == 2 || nr == 257 || nr == 85 || nr == 3 || nr == 436 || nr == 8),
{
    let s = file_io_nrs();
    assert(s[0] == 0);
    assert(s[1] == 1);
    assert(s[2] == 19);
    assert(s[3] == 20);
    assert(s[4] == 17);
    assert(s[5] == 18);
    assert(s[6] == 2);
    assert(s[7] == 257);
    assert(s[8] == 85);
    assert(s[9] == 3);
    assert(s[10] == 436);
    assert(s[11] == 8);
    if s.contains(nr) {
        let i = choose|i: int| 0 <= i < s.len() && s[i] == nr;
        assert(s[i] == nr);
    }
}

proof fn lemma_metadata(nr: u32)
    ensures
        metadata_nrs().contains(nr) <==> (nr == 4 || nr == 5 || nr == 6 || nr == 262 || nr == 332 || nr == 21 || nr == 269 || nr == 439 || nr == 89 || nr == 267 || nr == 137 || nr == 138),
{
    let s = metadata_nrs();
    assert(s[0] == 4);
    assert(s[1] == 5);
    assert(s[2] == 6);
    assert(s[3] == 262);
    assert(s[4] == 332);
    assert(s[5] == 21);
    assert(s[6] == 269);
    assert(s[7] == 439);
    assert(s[8] == 89);
    assert(s[9] == 267);
    assert(s[10] == 137);
    assert(s[11] == 138);
    if s.contains(nr) {
        let i = choose|i: int| 0 <= i < s.len() && s[i] == nr;
        assert(s[i] == nr);
    }
}

proof fn lemma_descriptors(nr: u32)
    ensures
        descriptors_nrs().contains(nr) <==> (nr == 32 || nr == 33 || nr == 292 || nr == 22 || nr == 293 || nr == 72 || nr == 16),
{
    let s = descriptors_nrs();
    assert(s[0] == 32);
    assert(s[1] == 33);
    assert(s[2] == 292);
    assert(s[3] == 22);
    assert(s[4] == 293);
    assert(s[5] == 72);
    assert(s[6] == 16);
    if s.contains(nr) {
        let i = choose|i: int| 0 <= i < s.len() && s[i] == nr;
        assert(s[i] == nr);
    }
}

proof fn lemma_filesystem(nr: u32)
    ensures
        filesystem_nrs().contains(nr) <==> (nr == 78 || nr == 217 || nr == 80 || nr == 81 || nr == 79 || nr == 83 || nr == 258 || nr == 84 || nr == 82 || nr == 264 || nr == 316 || nr == 87 || nr == 263 || nr == 88 || nr == 266 || nr == 86 || nr == 265 || nr == 90 || nr == 91 || nr == 268 || nr == 92 || nr == 93 || nr == 94 || nr == 260 || nr == 132 || nr == 235 || nr == 261 || nr == 280 || nr == 76 || nr == 77 || nr == 40 || nr == 285 || nr == 73 || nr == 74 || nr == 75),
{
    let s = filesystem_nrs();
    assert(s[0] == 78);
    assert(s[1] == 217);
    assert(s[2] == 80);
    assert(s[3] == 81);
    assert(s[4] == 79);
    assert(s[5] == 83);
    assert(s[6] == 258);
    assert(s[7] == 84);
    assert(s[8] == 82);
    assert(s[9] == 264);
    assert(s[10] == 316);
    assert(s[11] == 87);
    assert(s[12] == 263);
    assert(s[13] == 88);
    assert(s[14] == 266);
    assert(s[15] == 86);
    assert(s[16] == 265);
    assert(s[17] == 90);
    assert(s[18] == 91);
    assert(s[19] == 268);
    assert(s[20] == 92);
    assert(s[21] == 93);
    assert(s[22] == 94);
    assert(s[23] == 260);
    assert(s[24] == 132);
    assert(s[25] == 235);
    assert(s[26] == 261);
    assert(s[27] == 280);
    assert(s[28] == 76);
    assert(s[29] == 77);
    assert(s[30] == 40);
    assert(s[31] == 285);
    assert(s[32] == 73);
    assert(s[33] == 74);
    assert(s[34] == 75);
    if s.contains(nr) {
        let i = choose|i: int| 0 <= i < s.len() && s[i] == nr;
        assert(s[i] == nr);
    }
}

proof fn lemma_signals(nr: u32)
    ensures
        signals_nrs().contains(nr) <==> (nr == 13 || nr == 14 || nr == 15 || nr == 128 || nr == 127 || nr == 131 || nr == 234 || nr == 200),
{
    let s = signals_nrs();
    assert(s[0] == 13);
    assert(s[1] == 14);
    assert(s[2] == 15);
    assert(s[3] == 128);
    assert(s[4] == 127);
    assert(s[5] == 131);
    assert(s[6] == 234);
    assert(s[7] == 200);
    if s.contains(nr) {
        let i = choose|i: int| 0 <= i < s.len() && s[i] == nr;
        assert(s[i] == nr);
    }
}

proof fn lemma_threads(nr: u32)
    ensures
        threads_nrs().contains(nr) <==> (nr == 56 || nr == 202 || nr == 449 || nr == 274 || nr == 273),
{
    let s = threads_nrs();
    assert(s[0] == 56);
    assert(s[1] == 202);
    assert(s[2] == 449);
    assert(s[3] == 274);
    assert(s[4] == 273);
    if s.contains(nr) {
        let i = choose|i: int| 0 <= i < s.len() && s[i] == nr;
        assert(s[i] == nr);
    }
}

proof fn lemma_time(nr: u32)
    ensures
        time_nrs().contains(nr) <==> (nr == 35 || nr == 230 || nr == 228 || nr == 229 || nr == 96 || nr == 201 || nr == 100 || nr == 38 || nr == 36 || nr == 37),
{
    let s = time_nrs();
    assert(s[0] == 35);
    assert(s[1] == 230);
    assert(s[2] == 228);
    assert(s[3] == 229);
    assert(s[4] == 96);
    assert(s[5] == 201);
    assert(s[6] == 100);
    assert(s[7] == 38);
    assert(s[8] == 36);
    assert(s[9] == 37);
    if s.contains(nr) {
        let i = choose|i: int| 0 <= i < s.len() && s[i] == nr;
        assert(s[i] == nr);
    }
}

proof fn lemma_multiplexing(nr: u32)
    ensures
        multiplexing_nrs().contains(nr) <==> (nr == 23 || nr == 270 || nr == 7 || nr == 271 || nr == 213 || nr == 291 || nr == 233 || nr == 232 || nr == 281 || nr == 441),
{
    let s = multiplexing_nrs();
    assert(s[0] == 23);
    assert(s[1] == 270);
    assert(s[2] == 7);
    assert(s[3] == 271);
    assert(s[4] == 213);
    assert(s[5] == 291);
    assert(s[6] == 233);
    assert(s[7] == 232);
    assert(s[8] == 281);
    assert(s[9] == 441);
    if s.contains(nr) {
        let i = choose|i: int| 0 <= i < s.len() && s[i] == nr;
        assert(s[i] == nr);
    }
}

proof fn lemma_waiting(nr: u32)
    ensures
        waiting_nrs().contains(nr) <==> (nr == 61 || nr == 247),
{
    let s = waiting_nrs();
    assert(s[0] == 61);
    assert(s[1] == 247);
    if s.contains(nr) {
        let i = choose|i: int| 0 <= i < s.len() && s[i] == nr;
        assert(s[i] == nr);
    }
}

proof fn lemma_networking(nr: u32)
    ensures
        networking_nrs().contains(nr) <==> (nr == 41 || nr == 49 || nr == 42 || nr == 50 || nr == 43 || nr == 288 || nr == 44 || nr == 45 || nr == 46 || nr == 47 || nr == 307 || nr == 299 || nr == 48 || nr == 51 || nr == 52 || nr == 55 || nr == 54 || nr == 53),
{
    let s = networking_nrs();
    assert(s[0] == 41);
    assert(s[1] == 49);
    assert(s[2] == 42);
    assert(s[3] == 50);
    assert(s[4] == 43);
    assert(s[5] == 288);
    assert(s[6] == 44);
    assert(s[7] == 45);
    assert(s[8] == 46);
    assert(s[9] == 47);
    assert(s[10] == 307);
    assert(s[11] == 299);
    assert(s[12] == 48);
    assert(s[13] == 51);
    assert(s[14] == 52);
    assert(s[15] == 55);
    assert(s[16] == 54);
    assert(s[17] == 53);
    if s.contains(nr) {
        let i = choose|i: int| 0 <= i < s.len() && s[i] == nr;
        assert(s[i] == nr);
    }
}

proof fn lemma_identity(nr: u32)
    ensures
        identity_nrs().contains(nr) <==> (nr == 102 || nr == 104 || nr == 107 || nr == 108 || nr == 115 || nr == 111 || nr == 121 || nr == 124),
{
    let s = identity_nrs();
    assert(s[0] == 102);
    assert(s[1] == 104);
    assert(s[2] == 107);
    assert(s[3] == 108);
    assert(s[4] == 115);
    assert(s[5] == 111);
    assert(s[6] == 121);
    assert(s[7] == 124);
    if s.contains(nr) {
        let i = choose|i: int| 0 <= i < s.len() && s[i] == nr;
        assert(s[i] == nr);
    }
}

proof fn lemma_limits(nr: u32)
    ensures
        limits_nrs().contains(nr) <==> (nr == 97 || nr == 302 || nr == 160 || nr == 98),
{
    let s = limits_nrs();
    assert(s[0] == 97);
    assert(s[1] == 302);
    assert(s[2] == 160);
    assert(s[3] == 98);
    if s.contains(nr) {
        let i = choose|i: int| 0 <= i < s.len() && s[i] == nr;
        assert(s[i] == nr);
    }
}

proof fn lemma_scheduling(nr: u32)
    ensures
        scheduling_nrs().contains(nr) <==> (nr == 24 || nr == 204 || nr == 145 || nr == 146 || nr == 147 || nr == 140),
{
    let s = scheduling_nrs();
    assert(s[0] == 24);
    assert(s[1] == 204);
    assert(s[2] == 145);
    assert(s[3] == 146);
    assert(s[4] == 147);
    assert(s[5] == 140);
    if s.contains(nr) {
        let i = choose|i: int| 0 <= i < s.len() && s[i] == nr;
        assert(s[i] == nr);
    }
}

proof fn lemma_misc(nr: u32)
    ensures
        misc_nrs().contains(nr) <==> (nr == 63 || nr == 318 || nr == 319 || nr == 284 || nr == 290 || nr == 283 || nr == 286 || nr == 287 || nr == 294 || nr == 254 || nr == 255 || nr == 99 || nr == 157 || nr == 317),
{
    let s = misc_nrs();
    assert(s[0] == 63);
    assert(s[1] == 318);
    assert(s[2] == 319);
    assert(s[3] == 284);
    assert(s[4] == 290);
    assert(s[5] == 283);
    assert(s[6] == 286);
    assert(s[7] == 287);
    assert(s[8] == 294);
    assert(s[9] == 254);
    assert(s[10] == 255);
    assert(s[11] == 99);
    assert(s[12] == 157);
    assert(s[13] == 317);
    if s.contains(nr) {
        let i = choose|i: int| 0 <= i < s.len() && s[i] == nr;
        assert(s[i] == nr);
    }
}

proof fn lemma_contains_either(a: Seq<u32>, b: Seq<u32>, nr: u32)
    ensures
        (a + b).contains(nr) <==> a.contains(nr) || b.contains(nr),
{
    let s = a + b;
    if a.contains(nr) {
        let i = choose|i: int| 0 <= i < a.len() && a[i] == nr;
        assert(s[i] == nr);
    }
    if b.contains(nr) {
        let i = choose|i: int| 0 <= i < b.len() && b[i] == nr;
        assert(s[a.len() + i] == nr);
    }
    if s.contains(nr) {
        let i = choose|i: int| 0 <= i < s.len() && s[i] == nr;
        if i < a.len() {
            assert(a[i] == nr);
        } else {
            assert(b[i - a.len()] == nr);
        }
    }
}

proof fn lemma_allowed_by_group(nr: u32)
    ensures
        allowed_nrs().contains(nr) <==> {
            ||| process_nrs().contains(nr)
            ||| memory_nrs().contains(nr)
            ||| file_io_nrs().contains(nr)
            ||| metadata_nrs().contains(nr)
            ||| descriptors_nrs().contains(nr)
            ||| filesystem_nrs().contains(nr)
            ||| signals_nrs().contains(nr)
            ||| threads_nrs().contains(nr)
            ||| time_nrs().contains(nr)
            ||| multiplexing_nrs().contains(nr)
            ||| waiting_nrs().contains(nr)
            ||| networking_nrs().contains(nr)
            ||| identity_nrs().contains(nr)
            ||| limits_nrs().contains(nr)
            ||| scheduling_nrs().contains(nr)
            ||| misc_nrs().contains(nr)
        },
{
    let s1 = process_nrs() + memory_nrs();
    lemma_contains_either(process_nrs(), memory_nrs(), nr);
    let s2 = s1 + file_io_nrs();
    lemma_contains_either(s1, file_io_nrs(), nr);
    let s3 = s2 + metadata_nrs();
    lemma_contains_either(s2, metadata_nrs(), nr);
    let s4 = s3 + descriptors_nrs();
    lemma_contains_either(s3, descriptors_nrs(), nr);
    let s5 = s4 + filesystem_nrs();
    lemma_contains_either(s4, filesystem_nrs(), nr);
    let s6 = s5 + signals_nrs();
    lemma_contains_either(s5, signals_nrs(), nr);
    let s7 = s6 + threads_nrs();
    lemma_contains_either(s6, threads_nrs(), nr);
    let s8 = s7 + time_nrs();
    lemma_contains_either(s7, time_nrs(), nr);
    let s9 = s8 + multiplexing_nrs();
    lemma_contains_either(s8, multiplexing_nrs(), nr);
    let s10 = s9 + waiting_nrs();
    lemma_contains_either(s9, waiting_nrs(), nr);
    let s11 = s10 + networking_nrs();
    lemma_contains_either(s10, networking_nrs(), nr);
    let s12 = s11 + identity_nrs();
    lemma_contains_either(s11, identity_nrs(), nr);
    let s13 = s12 + limits_nrs();
    lemma_contains_either(s12, limits_nrs(), nr);
    let s14 = s13 + scheduling_nrs();
    lemma_contains_either(s13, scheduling_nrs(), nr);
    let s15 = s14 + misc_nrs();
    lemma_contains_either(s14, misc_nrs(), nr);
    assert(s15 == allowed_nrs());
}

/// The allow-list holds all of the numbers of the table and no others, and the
/// hard-kill list its six. No number is on both.
pub proof fn lists_hold_these_numbers(nr: u32)
    ensures
        allowed_nrs().contains(nr) <==> is_listed(nr),
        kill_nrs().contains(nr) <==> is_deadly(nr),
        !(is_listed(nr) && is_deadly(nr)),
        allowed_nrs().len() == 170,
        kill_nrs().len() == 6,
{
    lemma_allowed_by_group(nr);
    lemma_kill(nr);
    lemma_process(nr);
    lemma_memory(nr);
    lemma_file_io(nr);
    lemma_metadata(nr);
    lemma_descriptors(nr);
    lemma_filesystem(nr);
    lemma_signals(nr);
    lemma_threads(nr);
    lemma_time(nr);
    lemma_multiplexing(nr);
    lemma_waiting(nr);
    lemma_networking(nr);
    lemma_identity(nr);
    lemma_limits(nr);
    lemma_scheduling(nr);
    lemma_misc(nr);
}

} // verus!
