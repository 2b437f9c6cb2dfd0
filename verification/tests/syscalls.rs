use brink::syscalls;

#[test]
fn system_calls_have_the_numbers_of_the_system() {
    assert_eq!(syscalls::SYS_READ as i64, libc::SYS_read);
    assert_eq!(syscalls::SYS_WRITE as i64, libc::SYS_write);
    assert_eq!(syscalls::SYS_OPEN as i64, libc::SYS_open);
    assert_eq!(syscalls::SYS_CLOSE as i64, libc::SYS_close);
    assert_eq!(syscalls::SYS_STAT as i64, libc::SYS_stat);
    assert_eq!(syscalls::SYS_FSTAT as i64, libc::SYS_fstat);
    assert_eq!(syscalls::SYS_LSTAT as i64, libc::SYS_lstat);
    assert_eq!(syscalls::SYS_POLL as i64, libc::SYS_poll);
    assert_eq!(syscalls::SYS_LSEEK as i64, libc::SYS_lseek);
    assert_eq!(syscalls::SYS_MMAP as i64, libc::SYS_mmap);
    assert_eq!(syscalls::SYS_MPROTECT as i64, libc::SYS_mprotect);
    assert_eq!(syscalls::SYS_MUNMAP as i64, libc::SYS_munmap);
    assert_eq!(syscalls::SYS_BRK as i64, libc::SYS_brk);
    assert_eq!(syscalls::SYS_RT_SIGACTION as i64, libc::SYS_rt_sigaction);
    assert_eq!(syscalls::SYS_RT_SIGPROCMASK as i64, libc::SYS_rt_sigprocmask);
    assert_eq!(syscalls::SYS_RT_SIGRETURN as i64, libc::SYS_rt_sigreturn);
    assert_eq!(syscalls::SYS_IOCTL as i64, libc::SYS_ioctl);
    assert_eq!(syscalls::SYS_PREAD64 as i64, libc::SYS_pread64);
    assert_eq!(syscalls::SYS_PWRITE64 as i64, libc::SYS_pwrite64);
    assert_eq!(syscalls::SYS_READV as i64, libc::SYS_readv);
    assert_eq!(syscalls::SYS_WRITEV as i64, libc::SYS_writev);
    assert_eq!(syscalls::SYS_ACCESS as i64, libc::SYS_access);
    assert_eq!(syscalls::SYS_PIPE as i64, libc::SYS_pipe);
    assert_eq!(syscalls::SYS_SELECT as i64, libc::SYS_select);
    assert_eq!(syscalls::SYS_SCHED_YIELD as i64, libc::SYS_sched_yield);
    assert_eq!(syscalls::SYS_MREMAP as i64, libc::SYS_mremap);
    assert_eq!(syscalls::SYS_MSYNC as i64, libc::SYS_msync);
    assert_eq!(syscalls::SYS_MINCORE as i64, libc::SYS_mincore);
    assert_eq!(syscalls::SYS_MADVISE as i64, libc::SYS_madvise);
    assert_eq!(syscalls::SYS_DUP as i64, libc::SYS_dup);
    assert_eq!(syscalls::SYS_DUP2 as i64, libc::SYS_dup2);
    assert_eq!(syscalls::SYS_NANOSLEEP as i64, libc::SYS_nanosleep);
    assert_eq!(syscalls::SYS_GETITIMER as i64, libc::SYS_getitimer);
    assert_eq!(syscalls::SYS_ALARM as i64, libc::SYS_alarm);
    assert_eq!(syscalls::SYS_SETITIMER as i64, libc::SYS_setitimer);
    assert_eq!(syscalls::SYS_GETPID as i64, libc::SYS_getpid);
    assert_eq!(syscalls::SYS_SENDFILE as i64, libc::SYS_sendfile);
    assert_eq!(syscalls::SYS_SOCKET as i64, libc::SYS_socket);
    assert_eq!(syscalls::SYS_CONNECT as i64, libc::SYS_connect);
    assert_eq!(syscalls::SYS_ACCEPT as i64, libc::SYS_accept);
    assert_eq!(syscalls::SYS_SENDTO as i64, libc::SYS_sendto);
    assert_eq!(syscalls::SYS_RECVFROM as i64, libc::SYS_recvfrom);
    assert_eq!(syscalls::SYS_SENDMSG as i64, libc::SYS_sendmsg);
    assert_eq!(syscalls::SYS_RECVMSG as i64, libc::SYS_recvmsg);
    assert_eq!(syscalls::SYS_SHUTDOWN as i64, libc::SYS_shutdown);
    assert_eq!(syscalls::SYS_BIND as i64, libc::SYS_bind);
    assert_eq!(syscalls::SYS_LISTEN as i64, libc::SYS_listen);
    assert_eq!(syscalls::SYS_GETSOCKNAME as i64, libc::SYS_getsockname);
    assert_eq!(syscalls::SYS_GETPEERNAME as i64, libc::SYS_getpeername);
    assert_eq!(syscalls::SYS_SOCKETPAIR as i64, libc::SYS_socketpair);
    assert_eq!(syscalls::SYS_SETSOCKOPT as i64, libc::SYS_setsockopt);
    assert_eq!(syscalls::SYS_GETSOCKOPT as i64, libc::SYS_getsockopt);
    assert_eq!(syscalls::SYS_CLONE as i64, libc::SYS_clone);
    assert_eq!(syscalls::SYS_EXECVE as i64, libc::SYS_execve);
    assert_eq!(syscalls::SYS_EXIT as i64, libc::SYS_exit);
    assert_eq!(syscalls::SYS_WAIT4 as i64, libc::SYS_wait4);
    assert_eq!(syscalls::SYS_KILL as i64, libc::SYS_kill);
    assert_eq!(syscalls::SYS_UNAME as i64, libc::SYS_uname);
    assert_eq!(syscalls::SYS_FCNTL as i64, libc::SYS_fcntl);
    assert_eq!(syscalls::SYS_FLOCK as i64, libc::SYS_flock);
    assert_eq!(syscalls::SYS_FSYNC as i64, libc::SYS_fsync);
    assert_eq!(syscalls::SYS_FDATASYNC as i64, libc::SYS_fdatasync);
    assert_eq!(syscalls::SYS_TRUNCATE as i64, libc::SYS_truncate);
    assert_eq!(syscalls::SYS_FTRUNCATE as i64, libc::SYS_ftruncate);
    assert_eq!(syscalls::SYS_GETDENTS as i64, libc::SYS_getdents);
    assert_eq!(syscalls::SYS_GETCWD as i64, libc::SYS_getcwd);
    assert_eq!(syscalls::SYS_CHDIR as i64, libc::SYS_chdir);
    assert_eq!(syscalls::SYS_FCHDIR as i64, libc::SYS_fchdir);
    assert_eq!(syscalls::SYS_RENAME as i64, libc::SYS_rename);
    assert_eq!(syscalls::SYS_MKDIR as i64, libc::SYS_mkdir);
    assert_eq!(syscalls::SYS_RMDIR as i64, libc::SYS_rmdir);
    assert_eq!(syscalls::SYS_CREAT as i64, libc::SYS_creat);
    assert_eq!(syscalls::SYS_LINK as i64, libc::SYS_link);
    assert_eq!(syscalls::SYS_UNLINK as i64, libc::SYS_unlink);
    assert_eq!(syscalls::SYS_SYMLINK as i64, libc::SYS_symlink);
    assert_eq!(syscalls::SYS_READLINK as i64, libc::SYS_readlink);
    assert_eq!(syscalls::SYS_CHMOD as i64, libc::SYS_chmod);
    assert_eq!(syscalls::SYS_FCHMOD as i64, libc::SYS_fchmod);
    assert_eq!(syscalls::SYS_CHOWN as i64, libc::SYS_chown);
    assert_eq!(syscalls::SYS_FCHOWN as i64, libc::SYS_fchown);
    assert_eq!(syscalls::SYS_LCHOWN as i64, libc::SYS_lchown);
    assert_eq!(syscalls::SYS_GETTIMEOFDAY as i64, libc::SYS_gettimeofday);
    assert_eq!(syscalls::SYS_GETRLIMIT as i64, libc::SYS_getrlimit);
    assert_eq!(syscalls::SYS_GETRUSAGE as i64, libc::SYS_getrusage);
    assert_eq!(syscalls::SYS_SYSINFO as i64, libc::SYS_sysinfo);
    assert_eq!(syscalls::SYS_TIMES as i64, libc::SYS_times);
    assert_eq!(syscalls::SYS_PTRACE as i64, libc::SYS_ptrace);
    assert_eq!(syscalls::SYS_GETUID as i64, libc::SYS_getuid);
    assert_eq!(syscalls::SYS_GETGID as i64, libc::SYS_getgid);
    assert_eq!(syscalls::SYS_GETEUID as i64, libc::SYS_geteuid);
    assert_eq!(syscalls::SYS_GETEGID as i64, libc::SYS_getegid);
    assert_eq!(syscalls::SYS_GETPPID as i64, libc::SYS_getppid);
    assert_eq!(syscalls::SYS_GETPGRP as i64, libc::SYS_getpgrp);
    assert_eq!(syscalls::SYS_GETGROUPS as i64, libc::SYS_getgroups);
    assert_eq!(syscalls::SYS_GETPGID as i64, libc::SYS_getpgid);
    assert_eq!(syscalls::SYS_GETSID as i64, libc::SYS_getsid);
    assert_eq!(syscalls::SYS_RT_SIGPENDING as i64, libc::SYS_rt_sigpending);
    assert_eq!(syscalls::SYS_RT_SIGTIMEDWAIT as i64, libc::SYS_rt_sigtimedwait);
    assert_eq!(syscalls::SYS_SIGALTSTACK as i64, libc::SYS_sigaltstack);
    assert_eq!(syscalls::SYS_UTIME as i64, libc::SYS_utime);
    assert_eq!(syscalls::SYS_STATFS as i64, libc::SYS_statfs);
    assert_eq!(syscalls::SYS_FSTATFS as i64, libc::SYS_fstatfs);
    assert_eq!(syscalls::SYS_GETPRIORITY as i64, libc::SYS_getpriority);
    assert_eq!(syscalls::SYS_SCHED_GETSCHEDULER as i64, libc::SYS_sched_getscheduler);
    assert_eq!(syscalls::SYS_SCHED_GET_PRIORITY_MAX as i64, libc::SYS_sched_get_priority_max);
    assert_eq!(syscalls::SYS_SCHED_GET_PRIORITY_MIN as i64, libc::SYS_sched_get_priority_min);
    assert_eq!(syscalls::SYS_MLOCK as i64, libc::SYS_mlock);
    assert_eq!(syscalls::SYS_MUNLOCK as i64, libc::SYS_munlock);
    assert_eq!(syscalls::SYS_PRCTL as i64, libc::SYS_prctl);
    assert_eq!(syscalls::SYS_ARCH_PRCTL as i64, libc::SYS_arch_prctl);
    assert_eq!(syscalls::SYS_SETRLIMIT as i64, libc::SYS_setrlimit);
    assert_eq!(syscalls::SYS_GETTID as i64, libc::SYS_gettid);
    assert_eq!(syscalls::SYS_TKILL as i64, libc::SYS_tkill);
    assert_eq!(syscalls::SYS_TIME as i64, libc::SYS_time);
    assert_eq!(syscalls::SYS_FUTEX as i64, libc::SYS_futex);
    assert_eq!(syscalls::SYS_SCHED_GETAFFINITY as i64, libc::SYS_sched_getaffinity);
    assert_eq!(syscalls::SYS_EPOLL_CREATE as i64, libc::SYS_epoll_create);
    assert_eq!(syscalls::SYS_GETDENTS64 as i64, libc::SYS_getdents64);
    assert_eq!(syscalls::SYS_SET_TID_ADDRESS as i64, libc::SYS_set_tid_address);
    assert_eq!(syscalls::SYS_CLOCK_GETTIME as i64, libc::SYS_clock_gettime);
    assert_eq!(syscalls::SYS_CLOCK_GETRES as i64, libc::SYS_clock_getres);
    assert_eq!(syscalls::SYS_CLOCK_NANOSLEEP as i64, libc::SYS_clock_nanosleep);
    assert_eq!(syscalls::SYS_EXIT_GROUP as i64, libc::SYS_exit_group);
    assert_eq!(syscalls::SYS_EPOLL_WAIT as i64, libc::SYS_epoll_wait);
    assert_eq!(syscalls::SYS_EPOLL_CTL as i64, libc::SYS_epoll_ctl);
    assert_eq!(syscalls::SYS_TGKILL as i64, libc::SYS_tgkill);
    assert_eq!(syscalls::SYS_UTIMES as i64, libc::SYS_utimes);
    assert_eq!(syscalls::SYS_KEXEC_LOAD as i64, libc::SYS_kexec_load);
    assert_eq!(syscalls::SYS_WAITID as i64, libc::SYS_waitid);
    assert_eq!(syscalls::SYS_INOTIFY_ADD_WATCH as i64, libc::SYS_inotify_add_watch);
    assert_eq!(syscalls::SYS_INOTIFY_RM_WATCH as i64, libc::SYS_inotify_rm_watch);
    assert_eq!(syscalls::SYS_OPENAT as i64, libc::SYS_openat);
    assert_eq!(syscalls::SYS_MKDIRAT as i64, libc::SYS_mkdirat);
    assert_eq!(syscalls::SYS_FCHOWNAT as i64, libc::SYS_fchownat);
    assert_eq!(syscalls::SYS_FUTIMESAT as i64, libc::SYS_futimesat);
    assert_eq!(syscalls::SYS_NEWFSTATAT as i64, libc::SYS_newfstatat);
    assert_eq!(syscalls::SYS_UNLINKAT as i64, libc::SYS_unlinkat);
    assert_eq!(syscalls::SYS_RENAMEAT as i64, libc::SYS_renameat);
    assert_eq!(syscalls::SYS_LINKAT as i64, libc::SYS_linkat);
    assert_eq!(syscalls::SYS_SYMLINKAT as i64, libc::SYS_symlinkat);
    assert_eq!(syscalls::SYS_READLINKAT as i64, libc::SYS_readlinkat);
    assert_eq!(syscalls::SYS_FCHMODAT as i64, libc::SYS_fchmodat);
    assert_eq!(syscalls::SYS_FACCESSAT as i64, libc::SYS_faccessat);
    assert_eq!(syscalls::SYS_PSELECT6 as i64, libc::SYS_pselect6);
    assert_eq!(syscalls::SYS_PPOLL as i64, libc::SYS_ppoll);
    assert_eq!(syscalls::SYS_SET_ROBUST_LIST as i64, libc::SYS_set_robust_list);
    assert_eq!(syscalls::SYS_GET_ROBUST_LIST as i64, libc::SYS_get_robust_list);
    assert_eq!(syscalls::SYS_UTIMENSAT as i64, libc::SYS_utimensat);
    assert_eq!(syscalls::SYS_EPOLL_PWAIT as i64, libc::SYS_epoll_pwait);
    assert_eq!(syscalls::SYS_TIMERFD_CREATE as i64, libc::SYS_timerfd_create);
    assert_eq!(syscalls::SYS_EVENTFD as i64, libc::SYS_eventfd);
    assert_eq!(syscalls::SYS_FALLOCATE as i64, libc::SYS_fallocate);
    assert_eq!(syscalls::SYS_TIMERFD_SETTIME as i64, libc::SYS_timerfd_settime);
    assert_eq!(syscalls::SYS_TIMERFD_GETTIME as i64, libc::SYS_timerfd_gettime);
    assert_eq!(syscalls::SYS_ACCEPT4 as i64, libc::SYS_accept4);
    assert_eq!(syscalls::SYS_EVENTFD2 as i64, libc::SYS_eventfd2);
    assert_eq!(syscalls::SYS_EPOLL_CREATE1 as i64, libc::SYS_epoll_create1);
    assert_eq!(syscalls::SYS_DUP3 as i64, libc::SYS_dup3);
    assert_eq!(syscalls::SYS_PIPE2 as i64, libc::SYS_pipe2);
    assert_eq!(syscalls::SYS_INOTIFY_INIT1 as i64, libc::SYS_inotify_init1);
    assert_eq!(syscalls::SYS_RECVMMSG as i64, libc::SYS_recvmmsg);
    assert_eq!(syscalls::SYS_PRLIMIT64 as i64, libc::SYS_prlimit64);
    assert_eq!(syscalls::SYS_SENDMMSG as i64, libc::SYS_sendmmsg);
    assert_eq!(syscalls::SYS_PROCESS_VM_READV as i64, libc::SYS_process_vm_readv);
    assert_eq!(syscalls::SYS_PROCESS_VM_WRITEV as i64, libc::SYS_process_vm_writev);
    assert_eq!(syscalls::SYS_RENAMEAT2 as i64, libc::SYS_renameat2);
    assert_eq!(syscalls::SYS_SECCOMP as i64, libc::SYS_seccomp);
    assert_eq!(syscalls::SYS_GETRANDOM as i64, libc::SYS_getrandom);
    assert_eq!(syscalls::SYS_MEMFD_CREATE as i64, libc::SYS_memfd_create);
    assert_eq!(syscalls::SYS_KEXEC_FILE_LOAD as i64, libc::SYS_kexec_file_load);
    assert_eq!(syscalls::SYS_EXECVEAT as i64, libc::SYS_execveat);
    assert_eq!(syscalls::SYS_STATX as i64, libc::SYS_statx);
    assert_eq!(syscalls::SYS_CLONE3 as i64, libc::SYS_clone3);
    assert_eq!(syscalls::SYS_CLOSE_RANGE as i64, libc::SYS_close_range);
    assert_eq!(syscalls::SYS_FACCESSAT2 as i64, libc::SYS_faccessat2);
    assert_eq!(syscalls::SYS_EPOLL_PWAIT2 as i64, libc::SYS_epoll_pwait2);
    assert_eq!(syscalls::SYS_FUTEX_WAITV as i64, libc::SYS_futex_waitv);
}

#[test]
fn allow_list_holds_no_duplicate_and_nothing_to_kill() {
    let nrs = syscalls::allowed_syscall_nrs();
    let mut sorted = nrs.clone();
    sorted.sort();
    sorted.dedup();
    assert_eq!(sorted.len(), nrs.len());
    assert!(!nrs.contains(&syscalls::SYS_KILL));
    assert!(!nrs.contains(&syscalls::SYS_PTRACE));
    assert!(nrs.contains(&syscalls::SYS_EXECVE));
    assert!(nrs.contains(&syscalls::SYS_SOCKET));
}
