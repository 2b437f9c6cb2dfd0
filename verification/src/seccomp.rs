//! Seccomp-BPF filter construction.
//!
//! Policy:
//!   wrong architecture     -> kill the process
//!   hard-kill list         -> kill the process
//!   socket(not AF_UNIX)    -> EACCES
//!   clone(CLONE_NEWUSER)   -> EPERM
//!   clone3                 -> ENOSYS (libc then falls back to clone)
//!   allow-list             -> allow
//!   anything else          -> EPERM
//!
//! The filter is a classic BPF program. `filter_program` builds it, and its
//! contract states that the program, run on any system call, answers as
//! `policy` does.
use vstd::prelude::*;
use crate::error::SandboxError;
use crate::syscalls;
use crate::text::same_text;

verus! {

pub const BPF_LD: u16 = 0x00;
pub const BPF_W: u16 = 0x00;
pub const BPF_ABS: u16 = 0x20;
pub const BPF_JMP: u16 = 0x05;
pub const BPF_JEQ: u16 = 0x10;
pub const BPF_JSET: u16 = 0x40;
pub const BPF_K: u16 = 0x00;
pub const BPF_RET: u16 = 0x06;

pub const SECCOMP_RET_KILL_PROCESS: u32 = 0x8000_0000;
pub const SECCOMP_RET_ERRNO: u32 = 0x0005_0000;
pub const SECCOMP_RET_ALLOW: u32 = 0x7fff_0000;

/// Offset of the system call number in `struct seccomp_data`.
pub const OFF_NR: u32 = 0;
/// Offset of the architecture.
pub const OFF_ARCH: u32 = 4;
/// Offset of the low half of the first argument (little-endian).
pub const OFF_ARG0: u32 = 16;

pub const AUDIT_ARCH_X86_64: u32 = 0xC000_003E;
pub const AF_UNIX: u32 = 1;
pub const CLONE_NEWUSER: u32 = 0x1000_0000;
pub const EPERM: u32 = 1;
pub const EACCES: u32 = 13;
pub const ENOSYS: u32 = 38;

/// The longest program that the kernel accepts.
pub const BPF_MAXINSNS: usize = 4096;

/// One classic BPF instruction.
#[derive(Clone, Copy, PartialEq, Eq, Structural, Debug)]
pub struct SockFilter {
    pub code: u16,
    pub jt: u8,
    pub jf: u8,
    pub k: u32,
}

/// What the kernel shows to a filter of the system call that is being made.
pub struct SeccompData {
    pub nr: u32,
    pub arch: u32,
    pub args: Seq<u64>,
}

// ---- Semantics of a program ----

pub open spec fn op_load() -> u16 {
    0x20
}

pub open spec fn op_jeq() -> u16 {
    0x15
}

pub open spec fn op_jset() -> u16 {
    0x45
}

pub open spec fn op_ret() -> u16 {
    0x06
}

/// The low half of the first argument.
pub open spec fn arg0_low(data: SeccompData) -> u32 {
    (data.args[0] % 0x1_0000_0000) as u32
}

/// The word at an offset of the data. Only the words that the filter looks at
/// are described.
pub open spec fn word_at(data: SeccompData, offset: u32) -> Option<u32> {
    if offset == OFF_NR {
        Some(data.nr)
    } else if offset == OFF_ARCH {
        Some(data.arch)
    } else if offset == OFF_ARG0 {
        Some(arg0_low(data))
    } else {
        None
    }
}

/// What the program returns when execution is at `pc` with accumulator `acc`;
/// `None` where it runs off its end or meets an instruction without meaning here.
pub open spec fn run_from(prog: Seq<SockFilter>, pc: int, acc: u32, data: SeccompData) -> Option<
    u32,
>
    decreases
        (if pc < prog.len() {
            prog.len() - pc
        } else {
            0
        }),
{
    if pc < 0 || pc >= prog.len() {
        None
    } else {
        let insn = prog[pc];
        if insn.code == op_load() {
            match word_at(data, insn.k) {
                Some(word) => run_from(prog, pc + 1, word, data),
                None => None,
            }
        } else if insn.code == op_jeq() {
            run_from(prog, pc + 1 + (if acc == insn.k { insn.jt as int } else { insn.jf as int }), acc, data)
        } else if insn.code == op_jset() {
            run_from(prog, pc + 1 + (if acc & insn.k != 0 { insn.jt as int } else { insn.jf as int }), acc, data)
        } else if insn.code == op_ret() {
            Some(insn.k)
        } else {
            None
        }
    }
}

/// What the program answers for a system call.
pub open spec fn run(prog: Seq<SockFilter>, data: SeccompData) -> Option<u32> {
    run_from(prog, 0, 0, data)
}

// ---- Policy ----

/// The answer that makes the system call fail with an error number.
pub open spec fn fail_with(errno: u32) -> u32 {
    (SECCOMP_RET_ERRNO + errno) as u32
}

/// The answer that each system call is to get.
pub open spec fn policy(data: SeccompData) -> u32 {
    if data.arch != AUDIT_ARCH_X86_64 {
        SECCOMP_RET_KILL_PROCESS
    } else if syscalls::kill_nrs().contains(data.nr) {
        SECCOMP_RET_KILL_PROCESS
    } else if data.nr == syscalls::SYS_SOCKET && arg0_low(data) != AF_UNIX {
        fail_with(EACCES)
    } else if data.nr == syscalls::SYS_CLONE && arg0_low(data) & CLONE_NEWUSER != 0 {
        fail_with(EPERM)
    } else if data.nr == syscalls::SYS_CLONE3 {
        fail_with(ENOSYS)
    } else if syscalls::allowed_nrs().contains(data.nr) {
        SECCOMP_RET_ALLOW
    } else {
        fail_with(EPERM)
    }
}

// ---- The program ----

pub open spec fn insn(code: u16, k: u32, jt: u8, jf: u8) -> SockFilter {
    SockFilter { code, jt, jf, k }
}

/// Checks the architecture, then loads the system call number.
pub open spec fn prologue() -> Seq<SockFilter> {
    seq![
        insn(op_load(), OFF_ARCH, 0, 0),
        insn(op_jeq(), AUDIT_ARCH_X86_64, 1, 0),
        insn(op_ret(), SECCOMP_RET_KILL_PROCESS, 0, 0),
        insn(op_load(), OFF_NR, 0, 0),
    ]
}

/// Returns `answer` for every number of the list and falls through for others.
pub open spec fn answer_each(nrs: Seq<u32>, answer: u32) -> Seq<SockFilter> {
    Seq::new(
        2 * nrs.len(),
        |i: int|
            if i % 2 == 0 {
                insn(op_jeq(), nrs[i / 2], 0, 1)
            } else {
                insn(op_ret(), answer, 0, 0)
            },
    )
}

pub open spec fn socket_block() -> Seq<SockFilter> {
    seq![
        insn(op_jeq(), syscalls::SYS_SOCKET, 0, 4),
        insn(op_load(), OFF_ARG0, 0, 0),
        insn(op_jeq(), AF_UNIX, 1, 0),
        insn(op_ret(), fail_with(EACCES), 0, 0),
        insn(op_load(), OFF_NR, 0, 0),
    ]
}

pub open spec fn clone_block() -> Seq<SockFilter> {
    seq![
        insn(op_jeq(), syscalls::SYS_CLONE, 0, 4),
        insn(op_load(), OFF_ARG0, 0, 0),
        insn(op_jset(), CLONE_NEWUSER, 0, 1),
        insn(op_ret(), fail_with(EPERM), 0, 0),
        insn(op_load(), OFF_NR, 0, 0),
    ]
}

pub open spec fn clone3_block() -> Seq<SockFilter> {
    answer_each(seq![syscalls::SYS_CLONE3], fail_with(ENOSYS))
}

pub open spec fn default_block() -> Seq<SockFilter> {
    seq![insn(op_ret(), fail_with(EPERM), 0, 0)]
}

/// The filter program.
pub open spec fn program() -> Seq<SockFilter> {
    prologue() + answer_each(syscalls::kill_nrs(), SECCOMP_RET_KILL_PROCESS) + socket_block() + clone_block()
        + clone3_block() + answer_each(syscalls::allowed_nrs(), SECCOMP_RET_ALLOW) + default_block()
}

/// A part of a longer program that answers for each number of a list answers
/// for a listed accumulator, and otherwise hands it on to what follows.
proof fn lemma_answer_each(
    prog: Seq<SockFilter>,
    base: int,
    nrs: Seq<u32>,
    answer: u32,
    acc: u32,
    data: SeccompData,
)
    requires
        0 <= base,
        base + 2 * nrs.len() <= prog.len(),
        prog.subrange(base, base + 2 * nrs.len()) == answer_each(nrs, answer),
    ensures
        run_from(prog, base, acc, data) == if nrs.contains(acc) {
            Some(answer)
        } else {
            run_from(prog, base + 2 * nrs.len(), acc, data)
        },
    decreases nrs.len(),
{
    if nrs.len() > 0 {
        let part = prog.subrange(base, base + 2 * nrs.len());
        let rest = nrs.drop_first();
        assert(part[0] == prog[base]);
        assert(part[1] == prog[base + 1]);
        assert(prog.subrange(base + 2, base + 2 + 2 * rest.len()) =~= answer_each(rest, answer)) by {
            let tail = prog.subrange(base + 2, base + 2 + 2 * rest.len());
            assert forall|i: int| 0 <= i < 2 * rest.len() implies #[trigger] tail[i]
                == answer_each(rest, answer)[i] by {
                assert(part[i + 2] == tail[i]);
                assert(answer_each(nrs, answer)[i + 2] == answer_each(rest, answer)[i]);
            }
        }
        lemma_answer_each(prog, base + 2, rest, answer, acc, data);
        reveal_with_fuel(run_from, 3);
        if nrs.contains(acc) {
            if nrs[0] != acc {
                let i = choose|i: int| 0 <= i < nrs.len() && nrs[i] == acc;
                assert(rest[i - 1] == acc);
            }
        } else {
            assert forall|i: int| 0 <= i < rest.len() implies rest[i] != acc by {
                assert(nrs[i + 1] == rest[i]);
            }
            assert(!rest.contains(acc));
            assert(nrs[0] != acc);
        }
    }
}

/// The filter program answers every system call as the policy says.
pub proof fn program_implements_policy(data: SeccompData)
    ensures
        run(program(), data) == Some(policy(data)),
{
    let prog = program();
    let kills = answer_each(syscalls::kill_nrs(), SECCOMP_RET_KILL_PROCESS);
    let allows = answer_each(syscalls::allowed_nrs(), SECCOMP_RET_ALLOW);
    let p0 = prologue().len() as int;
    let p1 = p0 + kills.len();
    let p2 = p1 + 5;
    let p3 = p2 + 5;
    let p4 = p3 + 2;
    let p5 = p4 + allows.len();
    let nr = data.nr;
    assert(prog.subrange(0, p0) =~= prologue());
    assert(prog.subrange(p0, p1) =~= kills);
    assert(prog.subrange(p1, p2) =~= socket_block());
    assert(prog.subrange(p2, p3) =~= clone_block());
    assert(prog.subrange(p3, p4) =~= clone3_block());
    assert(prog.subrange(p4, p5) =~= allows);
    assert(prog.subrange(p5, prog.len() as int) =~= default_block());
    lemma_answer_each(prog, p0, syscalls::kill_nrs(), SECCOMP_RET_KILL_PROCESS, nr, data);
    lemma_answer_each(prog, p3, seq![syscalls::SYS_CLONE3], fail_with(ENOSYS), nr, data);
    assert(seq![syscalls::SYS_CLONE3].contains(nr) <==> nr == syscalls::SYS_CLONE3) by {
        assert(seq![syscalls::SYS_CLONE3][0] == syscalls::SYS_CLONE3);
    }
    lemma_answer_each(prog, p4, syscalls::allowed_nrs(), SECCOMP_RET_ALLOW, nr, data);
    assert(prog[0] == prologue()[0] && prog[1] == prologue()[1] && prog[2] == prologue()[2]
        && prog[3] == prologue()[3]) by {
        assert(prog.subrange(0, p0)[0] == prog[0]);
        assert(prog.subrange(0, p0)[1] == prog[1]);
        assert(prog.subrange(0, p0)[2] == prog[2]);
        assert(prog.subrange(0, p0)[3] == prog[3]);
    }
    assert forall|i: int| 0 <= i < 5 implies #[trigger] prog[p1 + i] == socket_block()[i] by {
        assert(prog.subrange(p1, p2)[i] == prog[p1 + i]);
    }
    assert forall|i: int| 0 <= i < 5 implies #[trigger] prog[p2 + i] == clone_block()[i] by {
        assert(prog.subrange(p2, p3)[i] == prog[p2 + i]);
    }
    assert(prog[p5] == default_block()[0]) by {
        assert(prog.subrange(p5, prog.len() as int)[0] == prog[p5]);
    }
    assert(run_from(prog, p5, nr, data) == Some(fail_with(EPERM)));
    // clone block
    assert(run_from(prog, p2, nr, data) == if nr == syscalls::SYS_CLONE && arg0_low(data) & CLONE_NEWUSER
        != 0 {
        Some(fail_with(EPERM))
    } else {
        run_from(prog, p3, nr, data)
    }) by {
        assert(prog[p2 + 0] == clone_block()[0]);
        assert(prog[p2 + 1] == clone_block()[1]);
        assert(prog[p2 + 2] == clone_block()[2]);
        assert(prog[p2 + 3] == clone_block()[3]);
        assert(prog[p2 + 4] == clone_block()[4]);
        reveal_with_fuel(run_from, 5);
    }
    // socket block
    assert(run_from(prog, p1, nr, data) == if nr == syscalls::SYS_SOCKET && arg0_low(data) != AF_UNIX {
        Some(fail_with(EACCES))
    } else {
        run_from(prog, p2, nr, data)
    }) by {
        assert(prog[p1 + 0] == socket_block()[0]);
        assert(prog[p1 + 1] == socket_block()[1]);
        assert(prog[p1 + 2] == socket_block()[2]);
        assert(prog[p1 + 3] == socket_block()[3]);
        assert(prog[p1 + 4] == socket_block()[4]);
        reveal_with_fuel(run_from, 5);
    }
    reveal_with_fuel(run_from, 4);
}

/// What the kernel asks of a program before it accepts it: not empty, not too
/// long, only known instructions, no jump out of the program, a return at the end.
pub open spec fn loadable(prog: Seq<SockFilter>) -> bool {
    &&& 0 < prog.len() <= BPF_MAXINSNS
    &&& prog.last().code == op_ret()
    &&& forall|i: int|
        0 <= i < prog.len() ==> {
            let insn = #[trigger] prog[i];
            ||| insn.code == op_ret()
            ||| insn.code == op_load()
            ||| (insn.code == op_jeq() || insn.code == op_jset()) && i + 1 + insn.jt < prog.len()
                && i + 1 + insn.jf < prog.len()
        }
}

/// The kernel accepts the filter program.
pub proof fn program_is_loadable()
    ensures
        loadable(program()),
{
    let prog = program();
    let n1 = 4 + 2 * syscalls::kill_nrs().len();
    let n4 = n1 + 12;
    let n5 = n4 + 2 * syscalls::allowed_nrs().len();
    assert(prog.len() == n5 + 1);
    assert forall|i: int| 0 <= i < prog.len() implies {
        let insn = #[trigger] prog[i];
        ||| insn.code == op_ret()
        ||| insn.code == op_load()
        ||| (insn.code == op_jeq() || insn.code == op_jset()) && i + 1 + insn.jt < prog.len() && i
            + 1 + insn.jf < prog.len()
    } by {
        if i < 4 {
            assert(prog[i] == prologue()[i]);
        } else if i < n1 {
            assert(prog[i] == answer_each(syscalls::kill_nrs(), SECCOMP_RET_KILL_PROCESS)[i - 4]);
        } else if i < n1 + 5 {
            assert(prog[i] == socket_block()[i - n1]);
        } else if i < n1 + 10 {
            assert(prog[i] == clone_block()[i - n1 - 5]);
        } else if i < n4 {
            assert(prog[i] == clone3_block()[i - n1 - 10]);
        } else if i < n5 {
            assert(prog[i] == answer_each(syscalls::allowed_nrs(), SECCOMP_RET_ALLOW)[i - n4]);
        } else {
            assert(prog[i] == default_block()[0]);
        }
    }
    assert(prog[n5 as int] == default_block()[0]);
}

// ---- Building the program ----

/// An instruction without jumps.
pub fn stmt(code: u16, k: u32) -> (insn: SockFilter)
    ensures
        insn == (SockFilter { code, jt: 0, jf: 0, k }),
{
    SockFilter { code, jt: 0, jf: 0, k }
}

/// A conditional jump: `jt` instructions ahead if the test holds, else `jf`.
pub fn jump(code: u16, k: u32, jt: u8, jf: u8) -> (insn: SockFilter)
    ensures
        insn == (SockFilter { code, jt, jf, k }),
{
    SockFilter { code, jt, jf, k }
}

/// The names on the hard-kill list.
pub open spec fn kill_names() -> Seq<Seq<char>> {
    seq![
        "kill"@,
        "ptrace"@,
        "process_vm_readv"@,
        "process_vm_writev"@,
        "kexec_load"@,
        "kexec_file_load"@,
    ]
}

/// The number of a system call of the hard-kill list, by its name.
pub open spec fn number_of(name: Seq<char>) -> Option<u32> {
    if kill_names().contains(name) {
        Some(syscalls::kill_nrs()[kill_names().index_of(name)])
    } else {
        None
    }
}

/// The names on the hard-kill list are distinct.
proof fn lemma_kill_names()
    ensures
        kill_names().no_duplicates(),
{
    reveal_strlit("kill");
    reveal_strlit("ptrace");
    reveal_strlit("process_vm_readv");
    reveal_strlit("process_vm_writev");
    reveal_strlit("kexec_load");
    reveal_strlit("kexec_file_load");
    assert("kill"@.len() == 4 && "ptrace"@.len() == 6 && "process_vm_readv"@.len() == 16);
    assert("process_vm_writev"@.len() == 17 && "kexec_load"@.len() == 10);
    assert("kexec_file_load"@.len() == 15);
    let names = kill_names();
    assert forall|i: int, j: int|
        0 <= i < names.len() && 0 <= j < names.len() && i != j implies names[i] != names[j] by {
        assert(names[0].len() == 4 && names[1].len() == 6 && names[2].len() == 16);
        assert(names[3].len() == 17 && names[4].len() == 10 && names[5].len() == 15);
        assert(names[i].len() != names[j].len());
    }
}

proof fn lemma_number_of(i: int)
    requires
        0 <= i < kill_names().len(),
    ensures
        number_of(kill_names()[i]) == Some(syscalls::kill_nrs()[i]),
{
    lemma_kill_names();
    assert(kill_names().contains(kill_names()[i]));
    assert(kill_names().index_of(kill_names()[i]) == i);
}

/// Resolves the name of a system call of the hard-kill list.
pub fn syscall_nr(name: &str) -> (nr: Option<u32>)
    ensures
        nr == number_of(name@),
{
    proof {
        lemma_number_of(0);
        lemma_number_of(1);
        lemma_number_of(2);
        lemma_number_of(3);
        lemma_number_of(4);
        lemma_number_of(5);
    }
    if same_text(name, "kill") {
        Some(syscalls::SYS_KILL)
    } else if same_text(name, "ptrace") {
        Some(syscalls::SYS_PTRACE)
    } else if same_text(name, "process_vm_readv") {
        Some(syscalls::SYS_PROCESS_VM_READV)
    } else if same_text(name, "process_vm_writev") {
        Some(syscalls::SYS_PROCESS_VM_WRITEV)
    } else if same_text(name, "kexec_load") {
        Some(syscalls::SYS_KEXEC_LOAD)
    } else if same_text(name, "kexec_file_load") {
        Some(syscalls::SYS_KEXEC_FILE_LOAD)
    } else {
        None
    }
}

/// The hard-kill list as names.
pub fn kill_syscalls() -> (names: Vec<&'static str>)
    ensures
        names@.len() == kill_names().len(),
        forall|i: int| 0 <= i < names@.len() ==> (#[trigger] names@[i])@ == kill_names()[i],
{
    vec![
        "kill",
        "ptrace",
        "process_vm_readv",
        "process_vm_writev",
        "kexec_load",
        "kexec_file_load",
    ]
}

/// Appends the two instructions that return `answer` for the number `nr`.
fn push_answer(insns: &mut Vec<SockFilter>, nr: u32, answer: u32)
    ensures
        final(insns)@ == old(insns)@ + seq![
            insn(op_jeq(), nr, 0, 1),
            insn(op_ret(), answer, 0, 0),
        ],
{
    assert(0x05u16 | 0x10u16 | 0x00u16 == 0x15u16) by (bit_vector);
    assert(0x06u16 | 0x00u16 == 0x06u16) by (bit_vector);
    insns.push(jump(BPF_JMP | BPF_JEQ | BPF_K, nr, 0, 1));
    insns.push(stmt(BPF_RET | BPF_K, answer));
}

proof fn lemma_answer_each_push(nrs: Seq<u32>, nr: u32, answer: u32)
    ensures
        answer_each(nrs.push(nr), answer) == answer_each(nrs, answer) + seq![
            insn(op_jeq(), nr, 0, 1),
            insn(op_ret(), answer, 0, 0),
        ],
{
    assert(answer_each(nrs.push(nr), answer) =~= answer_each(nrs, answer) + seq![
        insn(op_jeq(), nr, 0, 1),
        insn(op_ret(), answer, 0, 0),
    ]);
}

/// Builds the filter. It answers every system call as the policy says, and the
/// kernel accepts it.
pub fn filter_program() -> (insns: Vec<SockFilter>)
    ensures
        insns@ == program(),
        loadable(insns@),
        forall|data: SeccompData| #[trigger] run(insns@, data) == Some(policy(data)),
{
    assert(0x00u16 | 0x00u16 | 0x20u16 == 0x20u16) by (bit_vector);
    assert(0x05u16 | 0x10u16 | 0x00u16 == 0x15u16) by (bit_vector);
    assert(0x05u16 | 0x40u16 | 0x00u16 == 0x45u16) by (bit_vector);
    assert(0x06u16 | 0x00u16 == 0x06u16) by (bit_vector);
    assert(0x5_0000u32 | (13u32 & 0xFFFFu32) == 0x5_000Du32) by (bit_vector);
    assert(0x5_0000u32 | (1u32 & 0xFFFFu32) == 0x5_0001u32) by (bit_vector);
    assert(0x5_0000u32 | (38u32 & 0xFFFFu32) == 0x5_0026u32) by (bit_vector);

    let mut insns: Vec<SockFilter> = Vec::with_capacity(512);

    // Another architecture numbers its system calls otherwise: kill.
    insns.push(stmt(BPF_LD | BPF_W | BPF_ABS, OFF_ARCH));
    insns.push(jump(BPF_JMP | BPF_JEQ | BPF_K, AUDIT_ARCH_X86_64, 1, 0));
    insns.push(stmt(BPF_RET | BPF_K, SECCOMP_RET_KILL_PROCESS));
    // The number stays in the accumulator for all comparisons below.
    insns.push(stmt(BPF_LD | BPF_W | BPF_ABS, OFF_NR));
    assert(insns@ =~= prologue());

    let names = kill_syscalls();
    let mut i: usize = 0;
    while i < names.len()
        invariant
            i <= names.len(),
            names@.len() == kill_names().len(),
            syscalls::kill_nrs().len() == kill_names().len(),
            forall|j: int| 0 <= j < names@.len() ==> (#[trigger] names@[j])@ == kill_names()[j],
            insns@ == prologue() + answer_each(
                syscalls::kill_nrs().take(i as int),
                SECCOMP_RET_KILL_PROCESS,
            ),
        decreases names.len() - i,
    {
        proof {
            lemma_number_of(i as int);
            lemma_answer_each_push(
                syscalls::kill_nrs().take(i as int),
                syscalls::kill_nrs()[i as int],
                SECCOMP_RET_KILL_PROCESS,
            );
            assert(syscalls::kill_nrs().take(i + 1) =~= syscalls::kill_nrs().take(i as int).push(
                syscalls::kill_nrs()[i as int],
            ));
        }
        if let Some(nr) = syscall_nr(names[i]) {
            push_answer(&mut insns, nr, SECCOMP_RET_KILL_PROCESS);
        }
        i += 1;
        assert(insns@ =~= prologue() + answer_each(
            syscalls::kill_nrs().take(i as int),
            SECCOMP_RET_KILL_PROCESS,
        ));
    }
    assert(syscalls::kill_nrs().take(i as int) =~= syscalls::kill_nrs());
    let ghost after_kills = insns@;

    // socket(): only AF_UNIX. Anything but socket skips the block; an AF_UNIX
    // socket reloads the number and goes on to the allow-list.
    insns.push(jump(BPF_JMP | BPF_JEQ | BPF_K, syscalls::SYS_SOCKET, 0, 4));
    insns.push(stmt(BPF_LD | BPF_W | BPF_ABS, OFF_ARG0));
    insns.push(jump(BPF_JMP | BPF_JEQ | BPF_K, AF_UNIX, 1, 0));
    insns.push(stmt(BPF_RET | BPF_K, SECCOMP_RET_ERRNO | (EACCES & 0xFFFF)));
    insns.push(stmt(BPF_LD | BPF_W | BPF_ABS, OFF_NR));
    assert(insns@ =~= after_kills + socket_block());

    // clone(): not with CLONE_NEWUSER.
    let ghost after_socket = insns@;
    insns.push(jump(BPF_JMP | BPF_JEQ | BPF_K, syscalls::SYS_CLONE, 0, 4));
    insns.push(stmt(BPF_LD | BPF_W | BPF_ABS, OFF_ARG0));
    insns.push(jump(BPF_JMP | BPF_JSET | BPF_K, CLONE_NEWUSER, 0, 1));
    insns.push(stmt(BPF_RET | BPF_K, SECCOMP_RET_ERRNO | (EPERM & 0xFFFF)));
    insns.push(stmt(BPF_LD | BPF_W | BPF_ABS, OFF_NR));
    assert(insns@ =~= after_socket + clone_block());

    // clone3(): its flags lie behind a pointer that a filter cannot follow.
    let ghost after_clone = insns@;
    push_answer(&mut insns, syscalls::SYS_CLONE3, SECCOMP_RET_ERRNO | (ENOSYS & 0xFFFF));
    assert(insns@ =~= after_clone + clone3_block());

    let ghost after_clone3 = insns@;
    let allowed = syscalls::allowed_syscall_nrs();
    let mut i: usize = 0;
    assert(insns@ =~= after_clone3 + answer_each(
        syscalls::allowed_nrs().take(0),
        SECCOMP_RET_ALLOW,
    ));
    while i < allowed.len()
        invariant
            i <= allowed.len(),
            allowed@ == syscalls::allowed_nrs(),
            insns@ == after_clone3 + answer_each(
                syscalls::allowed_nrs().take(i as int),
                SECCOMP_RET_ALLOW,
            ),
        decreases allowed.len() - i,
    {
        proof {
            lemma_answer_each_push(
                syscalls::allowed_nrs().take(i as int),
                syscalls::allowed_nrs()[i as int],
                SECCOMP_RET_ALLOW,
            );
            assert(syscalls::allowed_nrs().take(i + 1) =~= syscalls::allowed_nrs().take(
                i as int,
            ).push(syscalls::allowed_nrs()[i as int]));
        }
        push_answer(&mut insns, allowed[i], SECCOMP_RET_ALLOW);
        i += 1;
        assert(insns@ =~= after_clone3 + answer_each(
            syscalls::allowed_nrs().take(i as int),
            SECCOMP_RET_ALLOW,
        ));
    }
    assert(syscalls::allowed_nrs().take(i as int) =~= syscalls::allowed_nrs());

    insns.push(stmt(BPF_RET | BPF_K, SECCOMP_RET_ERRNO | (EPERM & 0xFFFF)));
    proof {
        assert(insns@ =~= program());
        program_is_loadable();
        assert forall|data: SeccompData| #[trigger] run(insns@, data) == Some(policy(data)) by {
            program_implements_policy(data);
        }
    }
    insns
}

/// What comes of handing the filter to the kernel, whose call returned `ret`.
pub open spec fn loaded(ret: i64, errno: i32) -> Result<(), SandboxError> {
    if ret == 0 {
        Ok(())
    } else {
        Err(SandboxError::SeccompLoadFailed(errno))
    }
}

/// What comes of handing the filter to the kernel, whose call returned `ret`.
pub fn load_result(ret: i64, errno: i32) -> (result: Result<(), SandboxError>)
    ensures
        result == loaded(ret, errno),
{
    if ret == 0 {
        Ok(())
    } else {
        Err(SandboxError::SeccompLoadFailed(errno))
    }
}

// ---- Laws ----

/// What the filter answers, by the numbers that x86-64 gives to system calls: each of
/// the table is allowed (0x7fff0000), but for `socket` (41) of another family than
/// 1, refused with error 13, and `clone` (56) with bit 28 of its flags, refused with
/// error 1. `clone3` (435) is refused with error 38; the deadly ones, and whatever
/// comes from another architecture, end the process (0x80000000); all others are
/// refused with error 1.
pub proof fn calls_are_answered_by_number(data: SeccompData)
    requires
        data.args.len() == 6,
    ensures
        ({
            let answer = run(program(), data);
            let first = data.args[0];
            if data.arch != 0xC000_003E || syscalls::is_deadly(data.nr) {
                answer == Some(0x8000_0000u32)
            } else if data.nr == 41 {
                answer == if first % 0x1_0000_0000 == 1 {
                    Some(0x7fff_0000u32)
                } else {
                    Some(0x0005_000Du32)
                }
            } else if data.nr == 56 {
                answer == if (first / 0x1000_0000) % 2 == 1 {
                    Some(0x0005_0001u32)
                } else {
                    Some(0x7fff_0000u32)
                }
            } else if data.nr == 435 {
                answer == Some(0x0005_0026u32)
            } else if syscalls::is_listed(data.nr) {
                answer == Some(0x7fff_0000u32)
            } else {
                answer == Some(0x0005_0001u32)
            }
        }),
{
    program_implements_policy(data);
    syscalls::lists_hold_these_numbers(data.nr);
    let first: u64 = data.args[0];
    let low: u64 = first % 0x1_0000_0000;
    assert((low as u32) & 0x1000_0000u32 != 0u32 <==> (first / 0x1000_0000u64) % 2u64 == 1u64)
        by (bit_vector)
        requires
            low == first % 0x1_0000_0000u64,
    ;
}

/// The names on the hard-kill list stand for these numbers, and no other name does.
pub proof fn deadly_names_have_these_numbers(name: Seq<char>)
    ensures
        number_of("kill"@) == Some(62u32),
        number_of("ptrace"@) == Some(101u32),
        number_of("process_vm_readv"@) == Some(310u32),
        number_of("process_vm_writev"@) == Some(311u32),
        number_of("kexec_load"@) == Some(246u32),
        number_of("kexec_file_load"@) == Some(320u32),
        number_of(name) is Some ==> name == "kill"@ || name == "ptrace"@ || name
            == "process_vm_readv"@ || name == "process_vm_writev"@ || name == "kexec_load"@ || name
            == "kexec_file_load"@,
{
    lemma_number_of(0);
    lemma_number_of(1);
    lemma_number_of(2);
    lemma_number_of(3);
    lemma_number_of(4);
    lemma_number_of(5);
    assert(kill_names()[0] == "kill"@);
    assert(kill_names()[1] == "ptrace"@);
    assert(kill_names()[2] == "process_vm_readv"@);
    assert(kill_names()[3] == "process_vm_writev"@);
    assert(kill_names()[4] == "kexec_load"@);
    assert(kill_names()[5] == "kexec_file_load"@);
    if kill_names().contains(name) {
        let i = choose|i: int| 0 <= i < kill_names().len() && kill_names()[i] == name;
        assert(kill_names()[i] == name);
    }
}

/// The program has 369 instructions, fewer than the 4096 that the kernel takes. Each
/// loads a word, compares, tests bits or returns, and no jump leaves the program.
pub proof fn program_stays_within_limits(i: int)
    requires
        0 <= i < program().len(),
    ensures
        program().len() == 369,
        program()[368].code == 0x06,
        ({
            let insn = program()[i];
            ||| insn.code == 0x06
            ||| insn.code == 0x20
            ||| (insn.code == 0x15 || insn.code == 0x45) && i + 1 + insn.jt < 369 && i + 1
                + insn.jf < 369
        }),
{
    program_is_loadable();
    syscalls::lists_hold_these_numbers(0);
    assert(program().len() == 369);
}

/// Only a zero means that the filter is loaded; with any other value the error number
/// is handed on.
pub proof fn a_filter_is_loaded_or_not(ret: i64, errno: i32)
    ensures
        loaded(ret, errno) is Ok <==> ret == 0,
        ret != 0 ==> (loaded(ret, errno) matches Err(SandboxError::SeccompLoadFailed(n)) && n
            == errno),
{
}

/// What the instructions of a program mean: 0x20 loads the number of the call, its
/// architecture or the low half of its first argument, 0x15 jumps by whether the
/// loaded word is the operand, 0x45 by whether it shares a bit with it, and 0x06 ends
/// the program with the operand as the answer.
pub proof fn instructions_mean_this(
    prog: Seq<SockFilter>,
    pc: int,
    acc: u32,
    data: SeccompData,
)
    requires
        0 <= pc < prog.len(),
        data.args.len() == 6,
    ensures
        prog[pc].code == 0x06 ==> run_from(prog, pc, acc, data) == Some(prog[pc].k),
        prog[pc].code == 0x20 && prog[pc].k == 0 ==> run_from(prog, pc, acc, data) == run_from(
            prog,
            pc + 1,
            data.nr,
            data,
        ),
        prog[pc].code == 0x20 && prog[pc].k == 4 ==> run_from(prog, pc, acc, data) == run_from(
            prog,
            pc + 1,
            data.arch,
            data,
        ),
        prog[pc].code == 0x20 && prog[pc].k == 16 ==> run_from(prog, pc, acc, data) == run_from(
            prog,
            pc + 1,
            (data.args[0] % 0x1_0000_0000) as u32,
            data,
        ),
        prog[pc].code == 0x15 ==> run_from(prog, pc, acc, data) == run_from(
            prog,
            pc + 1 + (if acc == prog[pc].k {
                prog[pc].jt as int
            } else {
                prog[pc].jf as int
            }),
            acc,
            data,
        ),
        prog[pc].code == 0x45 ==> run_from(prog, pc, acc, data) == run_from(
            prog,
            pc + 1 + (if acc & prog[pc].k != 0 {
                prog[pc].jt as int
            } else {
                prog[pc].jf as int
            }),
            acc,
            data,
        ),
        run(prog, data) == run_from(prog, 0, 0, data),
{
}

} // verus!
