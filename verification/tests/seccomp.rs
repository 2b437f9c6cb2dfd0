use brink::error::SandboxError;
use brink::seccomp::{
    filter_program, kill_syscalls, load_result, syscall_nr, SockFilter, AUDIT_ARCH_X86_64,
};
use brink::syscalls;

const KILL: u32 = 0x8000_0000;
const ALLOW: u32 = 0x7fff_0000;

fn errno(code: i32) -> u32 {
    0x0005_0000 | code as u32
}

/// Runs a program as the kernel does.
fn answer(prog: &[SockFilter], nr: u32, arch: u32, arg0: u64) -> u32 {
    let mut pc = 0usize;
    let mut acc = 0u32;
    loop {
        let insn = prog[pc];
        pc += 1;
        match insn.code {
            0x20 => {
                acc = match insn.k {
                    0 => nr,
                    4 => arch,
                    16 => arg0 as u32,
                    20 => (arg0 >> 32) as u32,
                    _ => panic!("load from {}", insn.k),
                }
            }
            0x15 => pc += if acc == insn.k { insn.jt } else { insn.jf } as usize,
            0x45 => pc += if acc & insn.k != 0 { insn.jt } else { insn.jf } as usize,
            0x06 => return insn.k,
            code => panic!("instruction {}", code),
        }
    }
}

#[test]
fn another_architecture_is_killed() {
    let prog = filter_program();
    assert_eq!(answer(&prog, libc::SYS_read as u32, 0x4000_0003, 0), KILL);
}

#[test]
fn kill_list_is_killed() {
    let prog = filter_program();
    for nr in [
        libc::SYS_kill,
        libc::SYS_ptrace,
        libc::SYS_process_vm_readv,
        libc::SYS_process_vm_writev,
        libc::SYS_kexec_load,
        libc::SYS_kexec_file_load,
    ] {
        assert_eq!(answer(&prog, nr as u32, AUDIT_ARCH_X86_64, 0), KILL, "{}", nr);
    }
}

#[test]
fn only_unix_sockets_are_allowed() {
    let prog = filter_program();
    let socket = libc::SYS_socket as u32;
    assert_eq!(answer(&prog, socket, AUDIT_ARCH_X86_64, libc::AF_UNIX as u64), ALLOW);
    for family in [libc::AF_INET, libc::AF_INET6, libc::AF_NETLINK, libc::AF_PACKET, 0] {
        assert_eq!(
            answer(&prog, socket, AUDIT_ARCH_X86_64, family as u64),
            errno(libc::EACCES)
        );
    }
}

#[test]
fn clone_may_not_make_user_namespaces() {
    let prog = filter_program();
    let clone = libc::SYS_clone as u32;
    assert_eq!(answer(&prog, clone, AUDIT_ARCH_X86_64, libc::SIGCHLD as u64), ALLOW);
    assert_eq!(
        answer(&prog, clone, AUDIT_ARCH_X86_64, (libc::CLONE_NEWUSER | libc::SIGCHLD) as u64),
        errno(libc::EPERM)
    );
    assert_eq!(
        answer(&prog, libc::SYS_clone3 as u32, AUDIT_ARCH_X86_64, 0),
        errno(libc::ENOSYS)
    );
}

#[test]
fn everything_else_is_denied() {
    let prog = filter_program();
    let allowed = syscalls::allowed_syscall_nrs();
    let killed: Vec<u32> =
        kill_syscalls().iter().map(|name| syscall_nr(name).unwrap()).collect();
    for nr in 0..1000u32 {
        let got = answer(&prog, nr, AUDIT_ARCH_X86_64, 1);
        let want = if killed.contains(&nr) {
            KILL
        } else if nr == libc::SYS_clone3 as u32 {
            errno(libc::ENOSYS)
        } else if allowed.contains(&nr) || nr == libc::SYS_clone as u32 {
            ALLOW
        } else {
            errno(libc::EPERM)
        };
        assert_eq!(got, want, "system call {}", nr);
    }
    for nr in [libc::SYS_mount, libc::SYS_bpf, libc::SYS_unshare, libc::SYS_setns] {
        assert_eq!(answer(&prog, nr as u32, AUDIT_ARCH_X86_64, 0), errno(libc::EPERM));
    }
}

#[test]
fn program_fits_the_kernel_limit() {
    assert!(filter_program().len() <= 4096);
}

#[test]
fn names_have_their_numbers() {
    assert_eq!(syscall_nr("kill"), Some(libc::SYS_kill as u32));
    assert_eq!(syscall_nr("ptrace"), Some(libc::SYS_ptrace as u32));
    assert_eq!(syscall_nr("process_vm_readv"), Some(libc::SYS_process_vm_readv as u32));
    assert_eq!(syscall_nr("process_vm_writev"), Some(libc::SYS_process_vm_writev as u32));
    assert_eq!(syscall_nr("kexec_load"), Some(libc::SYS_kexec_load as u32));
    assert_eq!(syscall_nr("kexec_file_load"), Some(libc::SYS_kexec_file_load as u32));
    assert_eq!(syscall_nr("read"), None);
}

#[test]
fn loading_fails_with_its_error_number() {
    assert!(load_result(0, 7).is_ok());
    assert!(matches!(load_result(-1, 22), Err(SandboxError::SeccompLoadFailed(22))));
    assert!(matches!(load_result(3, 1), Err(SandboxError::SeccompLoadFailed(1))));
}
