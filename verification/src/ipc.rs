//! Wire protocol between the supervising process and the fork server.
//!
//! All integers are little-endian. Every variable-length field is preceded by
//! its length in bytes, every list by its number of entries, both as 32-bit
//! integers. File descriptors travel beside the messages.
//!
//! A `SpawnRequest` goes to the fork server; a response, with the child's
//! process id or an error number, comes back.
use vstd::prelude::*;
use crate::error::errno_from_raw;
use crate::wire;
use crate::wire::{pull_cstring, pull_path, pull_u32, pull_u64, push_bytes, push_len, push_path, push_u32, push_u64};

verus! {

/// All that the fork server needs to know to start a sandboxed process.
pub struct SpawnRequest {
    pub workspace_path: Vec<u8>,
    /// Read-only mounts as (path on the host, path in the sandbox).
    pub extra_ro_mounts: Vec<(Vec<u8>, Vec<u8>)>,
    pub memory_max_bytes: u64,
    pub cpu_quota_us: u64,
    pub cpu_period_us: u64,
    pub pids_max: u32,
    pub ttl_secs: u64,
    pub ttl_nanos: u32,
    /// Arguments, free of zero bytes.
    pub argv: Vec<Vec<u8>>,
    /// `KEY=VALUE` strings, free of zero bytes.
    pub env: Vec<Vec<u8>>,
    pub max_open_files: u64,
    pub max_file_size_bytes: u64,
    pub stack_size_bytes: u64,
    /// The cgroup directory that has been made for this process.
    pub cgroup_path: Vec<u8>,
    /// The user that the fork server runs as.
    pub host_uid: u32,
    /// The group that the fork server runs as.
    pub host_gid: u32,
}

/// What a `SpawnRequest` holds.
#[verifier::ext_equal]
pub struct SpawnRequestView {
    pub workspace_path: Seq<u8>,
    pub extra_ro_mounts: Seq<(Seq<u8>, Seq<u8>)>,
    pub memory_max_bytes: u64,
    pub cpu_quota_us: u64,
    pub cpu_period_us: u64,
    pub pids_max: u32,
    pub ttl_secs: u64,
    pub ttl_nanos: u32,
    pub argv: Seq<Seq<u8>>,
    pub env: Seq<Seq<u8>>,
    pub max_open_files: u64,
    pub max_file_size_bytes: u64,
    pub stack_size_bytes: u64,
    pub cgroup_path: Seq<u8>,
    pub host_uid: u32,
    pub host_gid: u32,
}

impl View for SpawnRequest {
    type V = SpawnRequestView;

    open spec fn view(&self) -> SpawnRequestView {
        SpawnRequestView {
            workspace_path: self.workspace_path@,
            extra_ro_mounts: wire::pair_views(self.extra_ro_mounts@),
            memory_max_bytes: self.memory_max_bytes,
            cpu_quota_us: self.cpu_quota_us,
            cpu_period_us: self.cpu_period_us,
            pids_max: self.pids_max,
            ttl_secs: self.ttl_secs,
            ttl_nanos: self.ttl_nanos,
            argv: wire::views(self.argv@),
            env: wire::views(self.env@),
            max_open_files: self.max_open_files,
            max_file_size_bytes: self.max_file_size_bytes,
            stack_size_bytes: self.stack_size_bytes,
            cgroup_path: self.cgroup_path@,
            host_uid: self.host_uid,
            host_gid: self.host_gid,
        }
    }
}

// ---- Encoding of a request ----

/// Pairs of paths, one after the other.
pub open spec fn encoded_pairs(list: Seq<(Seq<u8>, Seq<u8>)>) -> Seq<u8>
    decreases list.len(),
{
    if list.len() == 0 {
        Seq::empty()
    } else {
        encoded_pairs(list.drop_last()) + wire::encoded_bytes(list.last().0) + wire::encoded_bytes(
            list.last().1,
        )
    }
}

/// Byte strings, one after the other.
pub open spec fn encoded_strings(list: Seq<Seq<u8>>) -> Seq<u8>
    decreases list.len(),
{
    if list.len() == 0 {
        Seq::empty()
    } else {
        encoded_strings(list.drop_last()) + wire::encoded_bytes(list.last())
    }
}

/// A list of pairs of paths with their number in front.
pub open spec fn encoded_pair_list(list: Seq<(Seq<u8>, Seq<u8>)>) -> Seq<u8> {
    wire::le(list.len(), 4) + encoded_pairs(list)
}

/// A list of byte strings with their number in front.
pub open spec fn encoded_string_list(list: Seq<Seq<u8>>) -> Seq<u8> {
    wire::le(list.len(), 4) + encoded_strings(list)
}

impl SpawnRequestView {
    /// The bytes that stand for the request.
    pub open spec fn encoded(self) -> Seq<u8> {
        wire::encoded_bytes(self.workspace_path)
            + encoded_pair_list(self.extra_ro_mounts)
            + wire::le(self.memory_max_bytes as nat, 8)
            + wire::le(self.cpu_quota_us as nat, 8)
            + wire::le(self.cpu_period_us as nat, 8)
            + wire::le(self.pids_max as nat, 4)
            + wire::le(self.ttl_secs as nat, 8)
            + wire::le(self.ttl_nanos as nat, 4)
            + encoded_string_list(self.argv)
            + encoded_string_list(self.env)
            + wire::le(self.max_open_files as nat, 8)
            + wire::le(self.max_file_size_bytes as nat, 8)
            + wire::le(self.stack_size_bytes as nat, 8)
            + wire::encoded_bytes(self.cgroup_path)
            + wire::le(self.host_uid as nat, 4)
            + wire::le(self.host_gid as nat, 4)
    }

    /// Every length and every count fits its 32-bit prefix, and the strings for
    /// `execve` hold no zero byte.
    pub open spec fn encodable(self) -> bool {
        &&& self.workspace_path.len() < wire::length_limit()
        &&& self.cgroup_path.len() < wire::length_limit()
        &&& short_pairs(self.extra_ro_mounts)
        &&& short_c_strings(self.argv)
        &&& short_c_strings(self.env)
    }
}

/// Few enough pairs of short enough paths.
pub open spec fn short_pairs(list: Seq<(Seq<u8>, Seq<u8>)>) -> bool {
    &&& list.len() < wire::length_limit()
    &&& forall|i: int|
        0 <= i < list.len() ==> (#[trigger] list[i]).0.len() < wire::length_limit()
            && list[i].1.len() < wire::length_limit()
}

/// Few enough strings, short enough and without zero bytes.
pub open spec fn short_c_strings(list: Seq<Seq<u8>>) -> bool {
    &&& list.len() < wire::length_limit()
    &&& forall|i: int|
        0 <= i < list.len() ==> (#[trigger] list[i]).len() < wire::length_limit()
            && wire::is_c_string(list[i])
}

// ---- Decoding of a request ----

/// `n` pairs of paths from position `p` on.
pub open spec fn pairs_at(buf: Seq<u8>, p: int, n: nat) -> Option<
    (Seq<(Seq<u8>, Seq<u8>)>, int),
>
    decreases n,
{
    if n == 0 {
        Some((Seq::empty(), p))
    } else {
        match pairs_at(buf, p, (n - 1) as nat) {
            Some((list, q)) => match wire::bytes_at(buf, q) {
                Some((a, r)) => match wire::bytes_at(buf, r) {
                    Some((b, s)) => Some((list.push((a, b)), s)),
                    None => None,
                },
                None => None,
            },
            None => None,
        }
    }
}

/// `n` strings without zero bytes from position `p` on.
pub open spec fn strings_at(buf: Seq<u8>, p: int, n: nat) -> Option<(Seq<Seq<u8>>, int)>
    decreases n,
{
    if n == 0 {
        Some((Seq::empty(), p))
    } else {
        match strings_at(buf, p, (n - 1) as nat) {
            Some((list, q)) => match wire::c_string_at(buf, q) {
                Some((s, r)) => Some((list.push(s), r)),
                None => None,
            },
            None => None,
        }
    }
}

/// A counted list of pairs of paths at position `p`.
pub open spec fn pair_list_at(buf: Seq<u8>, p: int) -> Option<(Seq<(Seq<u8>, Seq<u8>)>, int)> {
    match wire::int_at(buf, p, 4) {
        Some((n, q)) => pairs_at(buf, q, n),
        None => None,
    }
}

/// A counted list of strings at position `p`.
pub open spec fn string_list_at(buf: Seq<u8>, p: int) -> Option<(Seq<Seq<u8>>, int)> {
    match wire::int_at(buf, p, 4) {
        Some((n, q)) => strings_at(buf, q, n),
        None => None,
    }
}

/// Reading `n` pairs reads the encodings of `n` pairs that stand there.
proof fn lemma_pairs_at(buf: Seq<u8>, p: int, list: Seq<(Seq<u8>, Seq<u8>)>, q: int)
    requires
        0 <= p <= buf.len(),
        list.len() < wire::length_limit(),
    ensures
        pairs_at(buf, p, list.len()) == Some((list, q)) <==> short_pairs(list) && q == p
            + encoded_pairs(list).len() && wire::stands_at(buf, p, encoded_pairs(list)),
    decreases list.len(),
{
    if list.len() == 0 {
        assert(list =~= Seq::empty());
        assert(buf.subrange(p, p) =~= Seq::<u8>::empty());
    } else {
        let init = list.drop_last();
        let (a, b) = list.last();
        let pre = encoded_pairs(init);
        let ea = wire::encoded_bytes(a);
        let eb = wire::encoded_bytes(b);
        wire::lemma_le_len(a.len(), 4);
        wire::lemma_le_len(b.len(), 4);
        let q0 = p + pre.len();
        let q1 = q0 + ea.len();
        lemma_pairs_at(buf, p, init, q0);
        wire::lemma_stands_concat(buf, p, pre, ea);
        wire::lemma_stands_concat(buf, p, pre + ea, eb);
        wire::lemma_bytes_at(buf, q0, a, q1);
        wire::lemma_bytes_at(buf, q1, b, q);
        assert(init.push((a, b)) =~= list);
        if pairs_at(buf, p, list.len()) == Some((list, q)) {
            lemma_pairs_len(buf, p, init.len());
            let (l0, r0) = pairs_at(buf, p, init.len())->0;
            let (x, r1) = wire::bytes_at(buf, r0)->0;
            let (y, r2) = wire::bytes_at(buf, r1)->0;
            assert(l0.push((x, y)) == list);
            assert(l0 =~= init);
            assert((x, y) == list.last());
            lemma_pairs_at(buf, p, init, r0);
            wire::lemma_bytes_at(buf, r0, a, r1);
            wire::lemma_bytes_at(buf, r1, b, r2);
            assert(short_pairs(list)) by {
                assert forall|i: int| 0 <= i < list.len() implies (#[trigger] list[i]).0.len()
                    < wire::length_limit() && list[i].1.len() < wire::length_limit() by {
                    if i < init.len() {
                        assert(init[i] == list[i]);
                    }
                }
            }
        }
        if short_pairs(list) && q == p + encoded_pairs(list).len() && wire::stands_at(
            buf,
            p,
            encoded_pairs(list),
        ) {
            assert(short_pairs(init)) by {
                assert forall|i: int| 0 <= i < init.len() implies (#[trigger] init[i]).0.len()
                    < wire::length_limit() && init[i].1.len() < wire::length_limit() by {
                    assert(init[i] == list[i]);
                }
            }
            assert(list[list.len() - 1] == (a, b));
            assert(pairs_at(buf, p, init.len()) == Some((init, q0)));
            assert(wire::bytes_at(buf, q0) == Some((a, q1)));
            assert(wire::bytes_at(buf, q1) == Some((b, q)));
        }
    }
}

proof fn lemma_pairs_len(buf: Seq<u8>, p: int, n: nat)
    requires
        0 <= p <= buf.len(),
    ensures
        pairs_at(buf, p, n) matches Some((list, q)) ==> list.len() == n && p <= q <= buf.len(),
    decreases n,
{
    if n > 0 {
        lemma_pairs_len(buf, p, (n - 1) as nat);
    }
}

proof fn lemma_strings_len(buf: Seq<u8>, p: int, n: nat)
    requires
        0 <= p <= buf.len(),
    ensures
        strings_at(buf, p, n) matches Some((list, q)) ==> list.len() == n && p <= q <= buf.len(),
    decreases n,
{
    if n > 0 {
        lemma_strings_len(buf, p, (n - 1) as nat);
    }
}

/// Reading `n` strings reads the encodings of `n` strings that stand there.
proof fn lemma_strings_at(buf: Seq<u8>, p: int, list: Seq<Seq<u8>>, q: int)
    requires
        0 <= p <= buf.len(),
        list.len() < wire::length_limit(),
    ensures
        strings_at(buf, p, list.len()) == Some((list, q)) <==> short_c_strings(list) && q == p
            + encoded_strings(list).len() && wire::stands_at(buf, p, encoded_strings(list)),
    decreases list.len(),
{
    if list.len() == 0 {
        assert(list =~= Seq::empty());
        assert(buf.subrange(p, p) =~= Seq::<u8>::empty());
    } else {
        let init = list.drop_last();
        let a = list.last();
        let pre = encoded_strings(init);
        let ea = wire::encoded_bytes(a);
        wire::lemma_le_len(a.len(), 4);
        let q0 = p + pre.len();
        lemma_strings_at(buf, p, init, q0);
        wire::lemma_stands_concat(buf, p, pre, ea);
        wire::lemma_bytes_at(buf, q0, a, q);
        assert(init.push(a) =~= list);
        if strings_at(buf, p, list.len()) == Some((list, q)) {
            lemma_strings_len(buf, p, init.len());
            let (l0, r0) = strings_at(buf, p, init.len())->0;
            let (x, r1) = wire::bytes_at(buf, r0)->0;
            assert(l0.push(x) == list);
            assert(l0 =~= init);
            assert(x == list.last());
            lemma_strings_at(buf, p, init, r0);
            wire::lemma_bytes_at(buf, r0, a, r1);
            assert(short_c_strings(list)) by {
                assert forall|i: int| 0 <= i < list.len() implies (#[trigger] list[i]).len()
                    < wire::length_limit() && wire::is_c_string(list[i]) by {
                    if i < init.len() {
                        assert(init[i] == list[i]);
                    }
                }
            }
        }
        if short_c_strings(list) && q == p + encoded_strings(list).len() && wire::stands_at(
            buf,
            p,
            encoded_strings(list),
        ) {
            assert(short_c_strings(init)) by {
                assert forall|i: int| 0 <= i < init.len() implies (#[trigger] init[i]).len()
                    < wire::length_limit() && wire::is_c_string(init[i]) by {
                    assert(init[i] == list[i]);
                }
            }
            assert(list[list.len() - 1] == a);
            assert(strings_at(buf, p, init.len()) == Some((init, q0)));
            assert(wire::bytes_at(buf, q0) == Some((a, q)));
        }
    }
}

/// A counted list of pairs is read at a position if and only if its encoding
/// stands there.
proof fn lemma_pair_list_at(buf: Seq<u8>, p: int, list: Seq<(Seq<u8>, Seq<u8>)>, q: int)
    ensures
        pair_list_at(buf, p) == Some((list, q)) <==> short_pairs(list) && q == p
            + encoded_pair_list(list).len() && wire::stands_at(buf, p, encoded_pair_list(list)),
{
    wire::lemma_le_range();
    wire::lemma_le_len(list.len(), 4);
    wire::lemma_int_at(buf, p, 4, list.len(), p + 4);
    wire::lemma_stands_concat(buf, p, wire::le(list.len(), 4), encoded_pairs(list));
    if pair_list_at(buf, p) == Some((list, q)) {
        let (n, r) = wire::int_at(buf, p, 4)->0;
        lemma_pairs_len(buf, r, n);
        wire::lemma_int_at(buf, p, 4, n, r);
        lemma_pairs_at(buf, r, list, q);
    }
    if short_pairs(list) && wire::stands_at(buf, p, encoded_pair_list(list)) {
        lemma_pairs_at(buf, p + 4, list, q);
    }
}

/// A counted list of strings is read at a position if and only if its encoding
/// stands there.
proof fn lemma_string_list_at(buf: Seq<u8>, p: int, list: Seq<Seq<u8>>, q: int)
    ensures
        string_list_at(buf, p) == Some((list, q)) <==> short_c_strings(list) && q == p
            + encoded_string_list(list).len() && wire::stands_at(buf, p, encoded_string_list(list)),
{
    wire::lemma_le_range();
    wire::lemma_le_len(list.len(), 4);
    wire::lemma_int_at(buf, p, 4, list.len(), p + 4);
    wire::lemma_stands_concat(buf, p, wire::le(list.len(), 4), encoded_strings(list));
    if string_list_at(buf, p) == Some((list, q)) {
        let (n, r) = wire::int_at(buf, p, 4)->0;
        lemma_strings_len(buf, r, n);
        wire::lemma_int_at(buf, p, 4, n, r);
        lemma_strings_at(buf, r, list, q);
    }
    if short_c_strings(list) && wire::stands_at(buf, p, encoded_string_list(list)) {
        lemma_strings_at(buf, p + 4, list, q);
    }
}

/// What has been read.
spec fn found<T>(read: Option<(T, int)>) -> T {
    let (value, _) = read->0;
    value
}

/// The position behind what has been read.
spec fn behind<T>(read: Option<(T, int)>) -> int {
    let (_, position) = read->0;
    position
}

/// Reading a buffer field by field finds the fields of `q`.
spec fn reads_as(buf: Seq<u8>, q: SpawnRequestView) -> bool {
    let r1 = wire::bytes_at(buf, 0);
    let r2 = pair_list_at(buf, behind(r1));
    let r3 = wire::int_at(buf, behind(r2), 8);
    let r4 = wire::int_at(buf, behind(r3), 8);
    let r5 = wire::int_at(buf, behind(r4), 8);
    let r6 = wire::int_at(buf, behind(r5), 4);
    let r7 = wire::int_at(buf, behind(r6), 8);
    let r8 = wire::int_at(buf, behind(r7), 4);
    let r9 = string_list_at(buf, behind(r8));
    let r10 = string_list_at(buf, behind(r9));
    let r11 = wire::int_at(buf, behind(r10), 8);
    let r12 = wire::int_at(buf, behind(r11), 8);
    let r13 = wire::int_at(buf, behind(r12), 8);
    let r14 = wire::bytes_at(buf, behind(r13));
    let r15 = wire::int_at(buf, behind(r14), 4);
    let r16 = wire::int_at(buf, behind(r15), 4);
    &&& r1 is Some && found(r1) == q.workspace_path
    &&& r2 is Some && found(r2) == q.extra_ro_mounts
    &&& r3 is Some && found(r3) == q.memory_max_bytes
    &&& r4 is Some && found(r4) == q.cpu_quota_us
    &&& r5 is Some && found(r5) == q.cpu_period_us
    &&& r6 is Some && found(r6) == q.pids_max
    &&& r7 is Some && found(r7) == q.ttl_secs
    &&& r8 is Some && found(r8) == q.ttl_nanos
    &&& r9 is Some && found(r9) == q.argv
    &&& r10 is Some && found(r10) == q.env
    &&& r11 is Some && found(r11) == q.max_open_files
    &&& r12 is Some && found(r12) == q.max_file_size_bytes
    &&& r13 is Some && found(r13) == q.stack_size_bytes
    &&& r14 is Some && found(r14) == q.cgroup_path
    &&& r15 is Some && found(r15) == q.host_uid
    &&& r16 is Some && found(r16) == q.host_gid
}

/// A buffer reads as a request if and only if it begins with its encoding.
proof fn lemma_reads_as(buf: Seq<u8>, q: SpawnRequestView)
    ensures
        reads_as(buf, q) <==> q.encodable() && wire::stands_at(buf, 0, q.encoded()),
{
    wire::lemma_le_range();
    wire::lemma_le_len(q.workspace_path.len(), 4);
    wire::lemma_le_len(q.cgroup_path.len(), 4);
    let e1 = wire::encoded_bytes(q.workspace_path);
    let e2 = encoded_pair_list(q.extra_ro_mounts);
    let e3 = wire::le(q.memory_max_bytes as nat, 8);
    wire::lemma_le_len(q.memory_max_bytes as nat, 8);
    let e4 = wire::le(q.cpu_quota_us as nat, 8);
    wire::lemma_le_len(q.cpu_quota_us as nat, 8);
    let e5 = wire::le(q.cpu_period_us as nat, 8);
    wire::lemma_le_len(q.cpu_period_us as nat, 8);
    let e6 = wire::le(q.pids_max as nat, 4);
    wire::lemma_le_len(q.pids_max as nat, 4);
    let e7 = wire::le(q.ttl_secs as nat, 8);
    wire::lemma_le_len(q.ttl_secs as nat, 8);
    let e8 = wire::le(q.ttl_nanos as nat, 4);
    wire::lemma_le_len(q.ttl_nanos as nat, 4);
    let e9 = encoded_string_list(q.argv);
    let e10 = encoded_string_list(q.env);
    let e11 = wire::le(q.max_open_files as nat, 8);
    wire::lemma_le_len(q.max_open_files as nat, 8);
    let e12 = wire::le(q.max_file_size_bytes as nat, 8);
    wire::lemma_le_len(q.max_file_size_bytes as nat, 8);
    let e13 = wire::le(q.stack_size_bytes as nat, 8);
    wire::lemma_le_len(q.stack_size_bytes as nat, 8);
    let e14 = wire::encoded_bytes(q.cgroup_path);
    let e15 = wire::le(q.host_uid as nat, 4);
    wire::lemma_le_len(q.host_uid as nat, 4);
    let e16 = wire::le(q.host_gid as nat, 4);
    wire::lemma_le_len(q.host_gid as nat, 4);
    let s1 = e1;
    let s2 = s1 + e2;
    wire::lemma_stands_concat(buf, 0, s1, e2);
    let s3 = s2 + e3;
    wire::lemma_stands_concat(buf, 0, s2, e3);
    let s4 = s3 + e4;
    wire::lemma_stands_concat(buf, 0, s3, e4);
    let s5 = s4 + e5;
    wire::lemma_stands_concat(buf, 0, s4, e5);
    let s6 = s5 + e6;
    wire::lemma_stands_concat(buf, 0, s5, e6);
    let s7 = s6 + e7;
    wire::lemma_stands_concat(buf, 0, s6, e7);
    let s8 = s7 + e8;
    wire::lemma_stands_concat(buf, 0, s7, e8);
    let s9 = s8 + e9;
    wire::lemma_stands_concat(buf, 0, s8, e9);
    let s10 = s9 + e10;
    wire::lemma_stands_concat(buf, 0, s9, e10);
    let s11 = s10 + e11;
    wire::lemma_stands_concat(buf, 0, s10, e11);
    let s12 = s11 + e12;
    wire::lemma_stands_concat(buf, 0, s11, e12);
    let s13 = s12 + e13;
    wire::lemma_stands_concat(buf, 0, s12, e13);
    let s14 = s13 + e14;
    wire::lemma_stands_concat(buf, 0, s13, e14);
    let s15 = s14 + e15;
    wire::lemma_stands_concat(buf, 0, s14, e15);
    let s16 = s15 + e16;
    wire::lemma_stands_concat(buf, 0, s15, e16);
    wire::lemma_bytes_at(buf, 0, q.workspace_path, s1.len() as int);
    lemma_pair_list_at(buf, s1.len() as int, q.extra_ro_mounts, s2.len() as int);
    wire::lemma_int_at(buf, s2.len() as int, 8, q.memory_max_bytes as nat, s3.len() as int);
    wire::lemma_int_at(buf, s3.len() as int, 8, q.cpu_quota_us as nat, s4.len() as int);
    wire::lemma_int_at(buf, s4.len() as int, 8, q.cpu_period_us as nat, s5.len() as int);
    wire::lemma_int_at(buf, s5.len() as int, 4, q.pids_max as nat, s6.len() as int);
    wire::lemma_int_at(buf, s6.len() as int, 8, q.ttl_secs as nat, s7.len() as int);
    wire::lemma_int_at(buf, s7.len() as int, 4, q.ttl_nanos as nat, s8.len() as int);
    lemma_string_list_at(buf, s8.len() as int, q.argv, s9.len() as int);
    lemma_string_list_at(buf, s9.len() as int, q.env, s10.len() as int);
    wire::lemma_int_at(buf, s10.len() as int, 8, q.max_open_files as nat, s11.len() as int);
    wire::lemma_int_at(buf, s11.len() as int, 8, q.max_file_size_bytes as nat, s12.len() as int);
    wire::lemma_int_at(buf, s12.len() as int, 8, q.stack_size_bytes as nat, s13.len() as int);
    wire::lemma_bytes_at(buf, s13.len() as int, q.cgroup_path, s14.len() as int);
    wire::lemma_int_at(buf, s14.len() as int, 4, q.host_uid as nat, s15.len() as int);
    wire::lemma_int_at(buf, s15.len() as int, 4, q.host_gid as nat, s16.len() as int);
    assert(q.encoded() == s16);
    if reads_as(buf, q) {
        let r1 = wire::bytes_at(buf, 0);
        wire::lemma_bytes_at(buf, 0, q.workspace_path, behind(r1));
        assert(r1 == Some((q.workspace_path, s1.len() as int)));
        let r2 = pair_list_at(buf, s1.len() as int);
        lemma_pair_list_at(buf, s1.len() as int, q.extra_ro_mounts, behind(r2));
        assert(r2 == Some((q.extra_ro_mounts, s2.len() as int)));
        let r3 = wire::int_at(buf, s2.len() as int, 8);
        wire::lemma_int_at(buf, s2.len() as int, 8, q.memory_max_bytes as nat, behind(r3));
        assert(r3 == Some((q.memory_max_bytes as nat, s3.len() as int)));
        let r4 = wire::int_at(buf, s3.len() as int, 8);
        wire::lemma_int_at(buf, s3.len() as int, 8, q.cpu_quota_us as nat, behind(r4));
        assert(r4 == Some((q.cpu_quota_us as nat, s4.len() as int)));
        let r5 = wire::int_at(buf, s4.len() as int, 8);
        wire::lemma_int_at(buf, s4.len() as int, 8, q.cpu_period_us as nat, behind(r5));
        assert(r5 == Some((q.cpu_period_us as nat, s5.len() as int)));
        let r6 = wire::int_at(buf, s5.len() as int, 4);
        wire::lemma_int_at(buf, s5.len() as int, 4, q.pids_max as nat, behind(r6));
        assert(r6 == Some((q.pids_max as nat, s6.len() as int)));
        let r7 = wire::int_at(buf, s6.len() as int, 8);
        wire::lemma_int_at(buf, s6.len() as int, 8, q.ttl_secs as nat, behind(r7));
        assert(r7 == Some((q.ttl_secs as nat, s7.len() as int)));
        let r8 = wire::int_at(buf, s7.len() as int, 4);
        wire::lemma_int_at(buf, s7.len() as int, 4, q.ttl_nanos as nat, behind(r8));
        assert(r8 == Some((q.ttl_nanos as nat, s8.len() as int)));
        let r9 = string_list_at(buf, s8.len() as int);
        lemma_string_list_at(buf, s8.len() as int, q.argv, behind(r9));
        assert(r9 == Some((q.argv, s9.len() as int)));
        let r10 = string_list_at(buf, s9.len() as int);
        lemma_string_list_at(buf, s9.len() as int, q.env, behind(r10));
        assert(r10 == Some((q.env, s10.len() as int)));
        let r11 = wire::int_at(buf, s10.len() as int, 8);
        wire::lemma_int_at(buf, s10.len() as int, 8, q.max_open_files as nat, behind(r11));
        assert(r11 == Some((q.max_open_files as nat, s11.len() as int)));
        let r12 = wire::int_at(buf, s11.len() as int, 8);
        wire::lemma_int_at(buf, s11.len() as int, 8, q.max_file_size_bytes as nat, behind(r12));
        assert(r12 == Some((q.max_file_size_bytes as nat, s12.len() as int)));
        let r13 = wire::int_at(buf, s12.len() as int, 8);
        wire::lemma_int_at(buf, s12.len() as int, 8, q.stack_size_bytes as nat, behind(r13));
        assert(r13 == Some((q.stack_size_bytes as nat, s13.len() as int)));
        let r14 = wire::bytes_at(buf, s13.len() as int);
        wire::lemma_bytes_at(buf, s13.len() as int, q.cgroup_path, behind(r14));
        assert(r14 == Some((q.cgroup_path, s14.len() as int)));
        let r15 = wire::int_at(buf, s14.len() as int, 4);
        wire::lemma_int_at(buf, s14.len() as int, 4, q.host_uid as nat, behind(r15));
        assert(r15 == Some((q.host_uid as nat, s15.len() as int)));
        let r16 = wire::int_at(buf, s15.len() as int, 4);
        wire::lemma_int_at(buf, s15.len() as int, 4, q.host_gid as nat, behind(r16));
        assert(r16 == Some((q.host_gid as nat, s16.len() as int)));
    }
}

// ---- Requests ----

/// Appends a list of pairs of paths with their number in front.
fn push_pair_list(b: &mut Vec<u8>, list: &Vec<(Vec<u8>, Vec<u8>)>)
    ensures
        final(b)@ == old(b)@ + encoded_pair_list(wire::pair_views(list@)),
{
    let ghost start = b@;
    let ghost all = wire::pair_views(list@);
    push_len(b, list.len());
    let mut i: usize = 0;
    assert(b@ =~= start + wire::le(all.len(), 4) + encoded_pairs(all.take(0)));
    while i < list.len()
        invariant
            i <= list.len(),
            all == wire::pair_views(list@),
            b@ == start + wire::le(all.len(), 4) + encoded_pairs(all.take(i as int)),
        decreases list.len() - i,
    {
        push_path(b, &list[i].0);
        push_path(b, &list[i].1);
        proof {
            let next = all.take(i + 1);
            assert(next.drop_last() =~= all.take(i as int));
            assert(next.last() == (list@[i as int].0@, list@[i as int].1@));
        }
        i += 1;
        assert(b@ =~= start + wire::le(all.len(), 4) + encoded_pairs(all.take(i as int)));
    }
    assert(all.take(i as int) =~= all);
    assert(b@ =~= start + encoded_pair_list(all));
}

/// Appends a list of byte strings with their number in front.
fn push_string_list(b: &mut Vec<u8>, list: &Vec<Vec<u8>>)
    ensures
        final(b)@ == old(b)@ + encoded_string_list(wire::views(list@)),
{
    let ghost start = b@;
    let ghost all = wire::views(list@);
    push_len(b, list.len());
    let mut i: usize = 0;
    assert(b@ =~= start + wire::le(all.len(), 4) + encoded_strings(all.take(0)));
    while i < list.len()
        invariant
            i <= list.len(),
            all == wire::views(list@),
            b@ == start + wire::le(all.len(), 4) + encoded_strings(all.take(i as int)),
        decreases list.len() - i,
    {
        push_bytes(b, list[i].as_slice());
        proof {
            let next = all.take(i + 1);
            assert(next.drop_last() =~= all.take(i as int));
            assert(next.last() == list@[i as int]@);
        }
        i += 1;
        assert(b@ =~= start + wire::le(all.len(), 4) + encoded_strings(all.take(i as int)));
    }
    assert(all.take(i as int) =~= all);
    assert(b@ =~= start + encoded_string_list(all));
}

proof fn lemma_pairs_stop(buf: Seq<u8>, p: int, i: nat, n: nat)
    requires
        i <= n,
        pairs_at(buf, p, i) is None,
    ensures
        pairs_at(buf, p, n) is None,
    decreases n,
{
    if i < n {
        lemma_pairs_stop(buf, p, i, (n - 1) as nat);
    }
}

proof fn lemma_strings_stop(buf: Seq<u8>, p: int, i: nat, n: nat)
    requires
        i <= n,
        strings_at(buf, p, i) is None,
    ensures
        strings_at(buf, p, n) is None,
    decreases n,
{
    if i < n {
        lemma_strings_stop(buf, p, i, (n - 1) as nat);
    }
}

/// Reads a counted list of pairs of paths.
fn pull_pair_list(buf: &[u8], p: &mut usize) -> (list: Option<Vec<(Vec<u8>, Vec<u8>)>>)
    ensures
        match pair_list_at(buf@, *old(p) as int) {
            Some((l, q)) => list is Some && wire::pair_views(list->0@) == l && *final(p) == q,
            None => list is None,
        },
{
    let n: u32 = match pull_u32(buf, p) {
        Some(n) => n,
        None => {
            return None;
        },
    };
    let ghost start = *p as int;
    let mut list: Vec<(Vec<u8>, Vec<u8>)> = Vec::new();
    let mut i: u32 = 0;
    assert(wire::pair_views(list@) =~= Seq::empty());
    while i < n
        invariant
            i <= n,
            pairs_at(buf@, start, i as nat) == Some((wire::pair_views(list@), *p as int)),
            pair_list_at(buf@, *old(p) as int) == pairs_at(buf@, start, n as nat),
        decreases n - i,
    {
        let ghost before = list@;
        proof {
            if pairs_at(buf@, start, (i + 1) as nat) is None {
                lemma_pairs_stop(buf@, start, (i + 1) as nat, n as nat);
            }
        }
        let host = match pull_path(buf, p) {
            Some(path) => path,
            None => {
                return None;
            },
        };
        let sandbox = match pull_path(buf, p) {
            Some(path) => path,
            None => {
                return None;
            },
        };
        list.push((host, sandbox));
        i += 1;
        assert(wire::pair_views(list@) =~= wire::pair_views(before).push((host@, sandbox@)));
    }
    Some(list)
}

/// Reads a counted list of strings, which have to be free of zero bytes.
fn pull_string_list(buf: &[u8], p: &mut usize) -> (list: Option<Vec<Vec<u8>>>)
    ensures
        match string_list_at(buf@, *old(p) as int) {
            Some((l, q)) => list is Some && wire::views(list->0@) == l && *final(p) == q,
            None => list is None,
        },
{
    let n: u32 = match pull_u32(buf, p) {
        Some(n) => n,
        None => {
            return None;
        },
    };
    let ghost start = *p as int;
    let mut list: Vec<Vec<u8>> = Vec::new();
    let mut i: u32 = 0;
    assert(wire::views(list@) =~= Seq::empty());
    while i < n
        invariant
            i <= n,
            strings_at(buf@, start, i as nat) == Some((wire::views(list@), *p as int)),
            string_list_at(buf@, *old(p) as int) == strings_at(buf@, start, n as nat),
        decreases n - i,
    {
        let ghost before = list@;
        proof {
            if strings_at(buf@, start, (i + 1) as nat) is None {
                lemma_strings_stop(buf@, start, (i + 1) as nat, n as nat);
            }
        }
        let s = match pull_cstring(buf, p) {
            Some(s) => s,
            None => {
                return None;
            },
        };
        list.push(s);
        i += 1;
        assert(wire::views(list@) =~= wire::views(before).push(s@));
    }
    Some(list)
}

/// The request that a buffer begins with: the encodable request whose encoding
/// stands at its head. Bytes behind it do not matter.
pub open spec fn decoded(buf: Seq<u8>) -> Option<SpawnRequestView> {
    if exists|q: SpawnRequestView|
        q.encodable() && wire::stands_at(buf, 0, #[trigger] q.encoded()) {
        Some(
            choose|q: SpawnRequestView|
                q.encodable() && wire::stands_at(buf, 0, #[trigger] q.encoded()),
        )
    } else {
        None
    }
}

impl SpawnRequest {
    /// The bytes that stand for the request.
    pub fn serialize(&self) -> (b: Vec<u8>)
        ensures
            b@ == self@.encoded(),
    {
        let mut b: Vec<u8> = Vec::with_capacity(512);
        push_path(&mut b, &self.workspace_path);
        push_pair_list(&mut b, &self.extra_ro_mounts);
        push_u64(&mut b, self.memory_max_bytes);
        push_u64(&mut b, self.cpu_quota_us);
        push_u64(&mut b, self.cpu_period_us);
        push_u32(&mut b, self.pids_max);
        push_u64(&mut b, self.ttl_secs);
        push_u32(&mut b, self.ttl_nanos);
        push_string_list(&mut b, &self.argv);
        push_string_list(&mut b, &self.env);
        push_u64(&mut b, self.max_open_files);
        push_u64(&mut b, self.max_file_size_bytes);
        push_u64(&mut b, self.stack_size_bytes);
        push_path(&mut b, &self.cgroup_path);
        push_u32(&mut b, self.host_uid);
        push_u32(&mut b, self.host_gid);
        assert(b@ =~= self@.encoded());
        b
    }

    /// The request that a buffer begins with, if it begins with one.
    pub fn deserialize(buf: &[u8]) -> (req: Option<Self>)
        ensures
            match req {
                Some(r) => decoded(buf@) == Some(r@),
                None => decoded(buf@) is None,
            },
    {
        proof {
            assert forall|q: SpawnRequestView|
                q.encodable() && wire::stands_at(buf@, 0, #[trigger] q.encoded()) implies reads_as(
                buf@,
                q,
            ) by {
                lemma_reads_as(buf@, q);
            }
        }
        let mut p: usize = 0;
        let workspace_path = match pull_path(buf, &mut p) {
            Some(v) => v,
            None => {
                return None;
            },
        };
        let extra_ro_mounts = match pull_pair_list(buf, &mut p) {
            Some(v) => v,
            None => {
                return None;
            },
        };
        let memory_max_bytes = match pull_u64(buf, &mut p) {
            Some(v) => v,
            None => {
                return None;
            },
        };
        let cpu_quota_us = match pull_u64(buf, &mut p) {
            Some(v) => v,
            None => {
                return None;
            },
        };
        let cpu_period_us = match pull_u64(buf, &mut p) {
            Some(v) => v,
            None => {
                return None;
            },
        };
        let pids_max = match pull_u32(buf, &mut p) {
            Some(v) => v,
            None => {
                return None;
            },
        };
        let ttl_secs = match pull_u64(buf, &mut p) {
            Some(v) => v,
            None => {
                return None;
            },
        };
        let ttl_nanos = match pull_u32(buf, &mut p) {
            Some(v) => v,
            None => {
                return None;
            },
        };
        let argv = match pull_string_list(buf, &mut p) {
            Some(v) => v,
            None => {
                return None;
            },
        };
        let env = match pull_string_list(buf, &mut p) {
            Some(v) => v,
            None => {
                return None;
            },
        };
        let max_open_files = match pull_u64(buf, &mut p) {
            Some(v) => v,
            None => {
                return None;
            },
        };
        let max_file_size_bytes = match pull_u64(buf, &mut p) {
            Some(v) => v,
            None => {
                return None;
            },
        };
        let stack_size_bytes = match pull_u64(buf, &mut p) {
            Some(v) => v,
            None => {
                return None;
            },
        };
        let cgroup_path = match pull_path(buf, &mut p) {
            Some(v) => v,
            None => {
                return None;
            },
        };
        let host_uid = match pull_u32(buf, &mut p) {
            Some(v) => v,
            None => {
                return None;
            },
        };
        let host_gid = match pull_u32(buf, &mut p) {
            Some(v) => v,
            None => {
                return None;
            },
        };
        let req = SpawnRequest {
            workspace_path,
            extra_ro_mounts,
            memory_max_bytes,
            cpu_quota_us,
            cpu_period_us,
            pids_max,
            ttl_secs,
            ttl_nanos,
            argv,
            env,
            max_open_files,
            max_file_size_bytes,
            stack_size_bytes,
            cgroup_path,
            host_uid,
            host_gid,
        };
        proof {
            assert(reads_as(buf@, req@));
            lemma_reads_as(buf@, req@);
            lemma_decoded(buf@, req@);
        }
        Some(req)
    }
}

/// A buffer begins with the encoding of one request at most.
pub proof fn request_is_unambiguous(buf: Seq<u8>, a: SpawnRequestView, b: SpawnRequestView)
    requires
        a.encodable(),
        b.encodable(),
        wire::stands_at(buf, 0, a.encoded()),
        wire::stands_at(buf, 0, b.encoded()),
    ensures
        a == b,
{
    lemma_reads_as(buf, a);
    lemma_reads_as(buf, b);
    assert(a =~= b);
}

proof fn lemma_decoded(buf: Seq<u8>, q: SpawnRequestView)
    requires
        q.encodable(),
        wire::stands_at(buf, 0, q.encoded()),
    ensures
        decoded(buf) == Some(q),
{
    let r = choose|r: SpawnRequestView|
        r.encodable() && wire::stands_at(buf, 0, #[trigger] r.encoded());
    request_is_unambiguous(buf, q, r);
}

/// Decoding undoes encoding, whatever follows the message.
pub proof fn decoding_undoes_encoding(q: SpawnRequestView, rest: Seq<u8>)
    requires
        q.encodable(),
    ensures
        decoded(q.encoded() + rest) == Some(q),
        decoded(q.encoded()) == Some(q),
{
    assert((q.encoded() + rest).subrange(0, q.encoded().len() as int) =~= q.encoded());
    assert(q.encoded().subrange(0, q.encoded().len() as int) =~= q.encoded());
    lemma_decoded(q.encoded() + rest, q);
    lemma_decoded(q.encoded(), q);
}

// ---- Responses ----

/// Tag of a response that carries the child's process id.
pub const RESP_OK: u8 = 0;

/// Tag of a response that carries an error number.
pub const RESP_ERR: u8 = 1;

/// A tag and a signed 32-bit integer.
pub open spec fn tagged(tag: u8, v: i32) -> Seq<u8> {
    seq![tag] + wire::le(v as u32 as nat, 4)
}

/// The signed 32-bit integer that four bytes stand for.
pub open spec fn signed_value(s: Seq<u8>) -> i32 {
    (wire::le_value(s) as u32) as i32
}

/// A signed integer survives its encoding.
pub proof fn signed_value_of_encoding(v: i32)
    ensures
        wire::le(v as u32 as nat, 4).len() == 4,
        signed_value(wire::le(v as u32 as nat, 4)) == v,
{
    wire::lemma_le_range();
    wire::lemma_le_decodes(v as u32 as nat, 4);
    assert((v as u32) as i32 == v) by (bit_vector);
}

/// A tag byte and the integer behind it.
fn encode_tagged(tag: u8, v: i32) -> (b: Vec<u8>)
    ensures
        b@ == tagged(tag, v),
{
    let mut b: Vec<u8> = vec![tag];
    push_u32(&mut b, v as u32);
    assert(b@ =~= tagged(tag, v));
    b
}

/// The response for a child that was started.
pub fn encode_ok_response(child_pid: i32) -> (b: Vec<u8>)
    ensures
        b@ == tagged(RESP_OK, child_pid),
{
    encode_tagged(RESP_OK, child_pid)
}

/// The response for a request that failed with an error number.
pub fn encode_err_response(errno_val: i32) -> (b: Vec<u8>)
    ensures
        b@ == tagged(RESP_ERR, errno_val),
{
    encode_tagged(RESP_ERR, errno_val)
}

/// What a response says: a process id, a raw error number, or nothing that can
/// be understood. Bytes behind the fifth do not matter.
pub open spec fn response_in(buf: Seq<u8>) -> Option<Result<i32, i32>> {
    if buf.len() < 5 {
        None
    } else if buf[0] == RESP_OK {
        Some(Ok(signed_value(buf.subrange(1, 5))))
    } else if buf[0] == RESP_ERR {
        Some(Err(signed_value(buf.subrange(1, 5))))
    } else {
        None
    }
}

/// Reads a response; an error number comes back raw.
pub fn parse_response(buf: &[u8]) -> (response: Option<Result<i32, i32>>)
    ensures
        response == response_in(buf@),
{
    if buf.len() < 5 {
        return None;
    }
    let mut p: usize = 1;
    let v: i32 = match pull_u32(buf, &mut p) {
        Some(v) => v as i32,
        None => {
            return None;
        },
    };
    if buf[0] == RESP_OK {
        Some(Ok(v))
    } else if buf[0] == RESP_ERR {
        Some(Err(v))
    } else {
        None
    }
}

/// A response whose error number has been looked up among the known ones.
pub open spec fn with_known_errno(response: Option<Result<i32, i32>>) -> Option<Result<i32, i32>> {
    match response {
        Some(Err(raw)) => Some(Err(crate::error::known_errno(raw))),
        other => other,
    }
}

/// Reads a response; an error number that is not known becomes 0.
pub fn decode_response(buf: &[u8]) -> (response: Option<Result<i32, i32>>)
    ensures
        response == with_known_errno(response_in(buf@)),
{
    match parse_response(buf) {
        Some(Err(raw)) => Some(Err(errno_from_raw(raw))),
        other => other,
    }
}

/// What is read from a response is what was put into it.
pub proof fn response_round_trip(v: i32, rest: Seq<u8>)
    ensures
        response_in(tagged(RESP_OK, v) + rest) == Some(Ok::<i32, i32>(v)),
        response_in(tagged(RESP_ERR, v) + rest) == Some(Err::<i32, i32>(v)),
{
    signed_value_of_encoding(v);
    assert((tagged(RESP_OK, v) + rest).subrange(1, 5) =~= wire::le(v as u32 as nat, 4));
    assert((tagged(RESP_ERR, v) + rest).subrange(1, 5) =~= wire::le(v as u32 as nat, 4));
}

// ---- Laws ----

/// A request can be sent exactly if all its lengths have 32 bits and none of its
/// arguments and variables holds a zero byte.
pub proof fn what_can_be_sent(q: SpawnRequestView)
    ensures
        q.encodable() <==> {
            &&& q.workspace_path.len() <= 0xffff_ffff
            &&& q.cgroup_path.len() <= 0xffff_ffff
            &&& q.extra_ro_mounts.len() <= 0xffff_ffff
            &&& forall|i: int|
                0 <= i < q.extra_ro_mounts.len() ==> (#[trigger] q.extra_ro_mounts[i]).0.len()
                    <= 0xffff_ffff && q.extra_ro_mounts[i].1.len() <= 0xffff_ffff
            &&& q.argv.len() <= 0xffff_ffff
            &&& forall|i: int|
                0 <= i < q.argv.len() ==> (#[trigger] q.argv[i]).len() <= 0xffff_ffff
                    && !q.argv[i].contains(0)
            &&& q.env.len() <= 0xffff_ffff
            &&& forall|i: int|
                0 <= i < q.env.len() ==> (#[trigger] q.env[i]).len() <= 0xffff_ffff
                    && !q.env[i].contains(0)
        },
{
}

/// The fields of a request stand where they belong. The workspace comes first, behind
/// its length. The last bytes are those of the group, then, before it, the user, the
/// cgroup directory behind its length, and the limits for the stack, for the size of
/// a file and for open files.
pub proof fn fields_stand_in_order(q: SpawnRequestView)
    requires
        q.encodable(),
    ensures
        ({
            let b = q.encoded();
            let w = q.workspace_path.len() as int;
            let c = q.cgroup_path.len() as int;
            let n = b.len() as int;
            &&& n >= 4 + w + 36 + c
            &&& wire::le_value(b.subrange(0, 4)) == w
            &&& b.subrange(4, 4 + w) == q.workspace_path
            &&& wire::le_value(b.subrange(n - 36 - c, n - 28 - c)) == q.max_open_files
            &&& wire::le_value(b.subrange(n - 28 - c, n - 20 - c)) == q.max_file_size_bytes
            &&& wire::le_value(b.subrange(n - 20 - c, n - 12 - c)) == q.stack_size_bytes
            &&& wire::le_value(b.subrange(n - 12 - c, n - 8 - c)) == c
            &&& b.subrange(n - 8 - c, n - 8) == q.cgroup_path
            &&& wire::le_value(b.subrange(n - 8, n - 4)) == q.host_uid
            &&& wire::le_value(b.subrange(n - 4, n)) == q.host_gid
        }),
{
    let b = q.encoded();
    let w = q.workspace_path.len() as int;
    let c = q.cgroup_path.len() as int;
    let n = b.len() as int;
    let front = wire::encoded_bytes(q.workspace_path);
    let end = encoded_end(q);
    let before = front + encoded_pair_list(q.extra_ro_mounts) + encoded_limits(q)
        + encoded_string_list(q.argv) + encoded_string_list(q.env);
    let none = Seq::<u8>::empty();
    lemma_in_parts(q);
    assert(b =~= before + end + none);
    wire::lemma_le_range();
    wire::lemma_le_decodes(q.workspace_path.len(), 4);
    assert(b.subrange(0, 4) =~= wire::le(q.workspace_path.len(), 4));
    assert(b.subrange(4, 4 + w) =~= q.workspace_path);
    lemma_end(q);
    assert(before.len() == n - 36 - c);
    lemma_inner(before, end, none, 0, 8);
    lemma_inner(before, end, none, 8, 16);
    lemma_inner(before, end, none, 16, 24);
    lemma_inner(before, end, none, 24, 28);
    lemma_inner(before, end, none, 28, 28 + c);
    lemma_inner(before, end, none, 28 + c, 32 + c);
    lemma_inner(before, end, none, 32 + c, 36 + c);
}

proof fn lemma_end(q: SpawnRequestView)
    requires
        q.cgroup_path.len() < wire::length_limit(),
    ensures
        ({
            let b = encoded_end(q);
            let c = q.cgroup_path.len() as int;
            &&& b.len() == 36 + c
            &&& wire::le_value(b.subrange(0, 8)) == q.max_open_files
            &&& wire::le_value(b.subrange(8, 16)) == q.max_file_size_bytes
            &&& wire::le_value(b.subrange(16, 24)) == q.stack_size_bytes
            &&& wire::le_value(b.subrange(24, 28)) == c
            &&& b.subrange(28, 28 + c) == q.cgroup_path
            &&& wire::le_value(b.subrange(28 + c, 32 + c)) == q.host_uid
            &&& wire::le_value(b.subrange(32 + c, 36 + c)) == q.host_gid
        }),
{
    let b = encoded_end(q);
    let c = q.cgroup_path.len() as int;
    wire::lemma_le_range();
    wire::lemma_le_decodes(q.cgroup_path.len(), 4);
    wire::lemma_le_decodes(q.max_open_files as nat, 8);
    wire::lemma_le_decodes(q.max_file_size_bytes as nat, 8);
    wire::lemma_le_decodes(q.stack_size_bytes as nat, 8);
    wire::lemma_le_decodes(q.host_uid as nat, 4);
    wire::lemma_le_decodes(q.host_gid as nat, 4);
    assert(b.subrange(0, 8) =~= wire::le(q.max_open_files as nat, 8));
    assert(b.subrange(8, 16) =~= wire::le(q.max_file_size_bytes as nat, 8));
    assert(b.subrange(16, 24) =~= wire::le(q.stack_size_bytes as nat, 8));
    assert(b.subrange(24, 28) =~= wire::le(q.cgroup_path.len(), 4));
    assert(b.subrange(28, 28 + c) =~= q.cgroup_path);
    assert(b.subrange(28 + c, 32 + c) =~= wire::le(q.host_uid as nat, 4));
    assert(b.subrange(32 + c, 36 + c) =~= wire::le(q.host_gid as nat, 4));
}

/// A response is understood exactly if it has five bytes at least and begins with a
/// zero, for a process id, or a one, for an error number; the number is that of the
/// next four bytes, the lowest first, and its known error is what is handed on.
pub proof fn what_responses_say(buf: Seq<u8>)
    ensures
        response_in(buf) is Some <==> buf.len() >= 5 && (buf[0] == 0 || buf[0] == 1),
        buf.len() >= 5 && buf[0] <= 1 ==> {
            let word = buf[1] + 256 * buf[2] + 65_536 * buf[3] + 16_777_216 * buf[4];
            let v = if word < 0x8000_0000 {
                word
            } else {
                word - 0x1_0000_0000
            };
            &&& buf[0] == 0 ==> {
                &&& response_in(buf) matches Some(Ok(pid))
                &&& pid == v
                &&& with_known_errno(response_in(buf)) == response_in(buf)
            }
            &&& buf[0] == 1 ==> {
                &&& response_in(buf) matches Some(Err(raw))
                &&& raw == v
                &&& with_known_errno(response_in(buf)) == Some(
                    Err::<i32, i32>(crate::error::known_errno(raw)),
                )
            }
        },
{
    if buf.len() >= 5 {
        let four = buf.subrange(1, 5);
        wire::lemma_four_bytes(four);
        assert(four[0] == buf[1] && four[1] == buf[2] && four[2] == buf[3] && four[3] == buf[4]);
        let word = wire::le_value(four) as u32;
        assert(word < 0x8000_0000 ==> word as i32 == word) by (bit_vector);
        assert(word >= 0x8000_0000 ==> word as i32 == word - 0x1_0000_0000) by (bit_vector);
    }
}

/// Both kinds of response have five bytes, the first of which tells them apart.
pub proof fn responses_have_five_bytes(v: i32)
    ensures
        tagged(RESP_OK, v).len() == 5 && tagged(RESP_OK, v)[0] == 0,
        tagged(RESP_ERR, v).len() == 5 && tagged(RESP_ERR, v)[0] == 1,
{
    signed_value_of_encoding(v);
}

/// What is said of a request is what it holds, field by field.
pub proof fn requests_are_taken_as_they_are(req: SpawnRequest)
    ensures
        req@.workspace_path == req.workspace_path@,
        req@.extra_ro_mounts == wire::pair_views(req.extra_ro_mounts@),
        req@.memory_max_bytes == req.memory_max_bytes,
        req@.cpu_quota_us == req.cpu_quota_us,
        req@.cpu_period_us == req.cpu_period_us,
        req@.pids_max == req.pids_max,
        req@.ttl_secs == req.ttl_secs,
        req@.ttl_nanos == req.ttl_nanos,
        req@.argv == wire::views(req.argv@),
        req@.env == wire::views(req.env@),
        req@.max_open_files == req.max_open_files,
        req@.max_file_size_bytes == req.max_file_size_bytes,
        req@.stack_size_bytes == req.stack_size_bytes,
        req@.cgroup_path == req.cgroup_path@,
        req@.host_uid == req.host_uid,
        req@.host_gid == req.host_gid,
{
}

/// What is decoded was encoded: a buffer that is read as a request begins with the
/// bytes that stand for it, and the request is one that can be sent; a buffer that
/// begins with no such bytes is not read.
pub proof fn what_is_decoded_was_encoded(buf: Seq<u8>, q: SpawnRequestView)
    ensures
        decoded(buf) == Some(q) <==> q.encodable() && q.encoded().len() <= buf.len() && buf.take(
            q.encoded().len() as int,
        ) == q.encoded(),
{
    let n = q.encoded().len() as int;
    if q.encodable() && n <= buf.len() && buf.take(n) == q.encoded() {
        assert(buf.subrange(0, n) =~= buf.take(n));
        lemma_decoded(buf, q);
    }
    if decoded(buf) == Some(q) {
        assert(wire::stands_at(buf, 0, q.encoded()));
        assert(buf.subrange(0, n) =~= buf.take(n));
    }
}

/// Behind the workspace comes the list of mounts, and behind that, in this order, the
/// memory, the processor time, its period, the processes, and the seconds and the
/// nanoseconds of the time limit; then the arguments, and then the environment.
pub proof fn limits_stand_in_order(q: SpawnRequestView)
    requires
        q.encodable(),
    ensures
        ({
            let b = q.encoded();
            let m = encoded_pair_list(q.extra_ro_mounts);
            let a = encoded_string_list(q.argv);
            let e = encoded_string_list(q.env);
            let p = 4 + q.workspace_path.len() as int;
            let o = p + m.len() as int;
            let x = o + 40 + a.len() as int;
            &&& b.len() >= x + e.len()
            &&& b.subrange(p, o) == m
            &&& wire::le_value(b.subrange(o, o + 8)) == q.memory_max_bytes
            &&& wire::le_value(b.subrange(o + 8, o + 16)) == q.cpu_quota_us
            &&& wire::le_value(b.subrange(o + 16, o + 24)) == q.cpu_period_us
            &&& wire::le_value(b.subrange(o + 24, o + 28)) == q.pids_max
            &&& wire::le_value(b.subrange(o + 28, o + 36)) == q.ttl_secs
            &&& wire::le_value(b.subrange(o + 36, o + 40)) == q.ttl_nanos
            &&& b.subrange(o + 40, x) == a
            &&& b.subrange(x, x + e.len()) == e
        }),
{
    let m = encoded_pair_list(q.extra_ro_mounts);
    let a = encoded_string_list(q.argv);
    let e = encoded_string_list(q.env);
    let p = 4 + q.workspace_path.len() as int;
    let o = p + m.len() as int;
    let x = o + 40 + a.len() as int;
    let front = wire::encoded_bytes(q.workspace_path);
    let middle = encoded_limits(q);
    let end = encoded_end(q);
    wire::lemma_le_len(q.workspace_path.len(), 4);
    lemma_limits(q);
    lemma_in_parts(q);
    lemma_inner(front, m, middle + a + e + end, 0, m.len() as int);
    assert(front + m + (middle + a + e + end) =~= front + m + middle + a + e + end);
    let rest = a + e + end;
    assert(front + m + middle + rest =~= front + m + middle + a + e + end);
    lemma_inner(front + m, middle, rest, 0, 8);
    lemma_inner(front + m, middle, rest, 8, 16);
    lemma_inner(front + m, middle, rest, 16, 24);
    lemma_inner(front + m, middle, rest, 24, 28);
    lemma_inner(front + m, middle, rest, 28, 36);
    lemma_inner(front + m, middle, rest, 36, 40);
    assert(m.subrange(0, m.len() as int) =~= m);
    lemma_inner(front + m + middle, a, e + end, 0, a.len() as int);
    assert(front + m + middle + a + (e + end) =~= front + m + middle + a + e + end);
    assert(a.subrange(0, a.len() as int) =~= a);
    lemma_inner(front + m + middle + a, e, end, 0, e.len() as int);
    assert(e.subrange(0, e.len() as int) =~= e);
}

/// The limits of a request, one behind the other.
spec fn encoded_limits(q: SpawnRequestView) -> Seq<u8> {
    wire::le(q.memory_max_bytes as nat, 8) + wire::le(q.cpu_quota_us as nat, 8) + wire::le(
        q.cpu_period_us as nat,
        8,
    ) + wire::le(q.pids_max as nat, 4) + wire::le(q.ttl_secs as nat, 8) + wire::le(
        q.ttl_nanos as nat,
        4,
    )
}

/// What follows the environment in a request.
spec fn encoded_end(q: SpawnRequestView) -> Seq<u8> {
    wire::le(q.max_open_files as nat, 8) + wire::le(q.max_file_size_bytes as nat, 8) + wire::le(
        q.stack_size_bytes as nat,
        8,
    ) + wire::encoded_bytes(q.cgroup_path) + wire::le(q.host_uid as nat, 4) + wire::le(
        q.host_gid as nat,
        4,
    )
}

proof fn lemma_in_parts(q: SpawnRequestView)
    ensures
        q.encoded() == wire::encoded_bytes(q.workspace_path) + encoded_pair_list(q.extra_ro_mounts)
            + encoded_limits(q) + encoded_string_list(q.argv) + encoded_string_list(q.env)
            + encoded_end(q),
{
    assert(q.encoded() =~= wire::encoded_bytes(q.workspace_path) + encoded_pair_list(
        q.extra_ro_mounts,
    ) + encoded_limits(q) + encoded_string_list(q.argv) + encoded_string_list(q.env)
        + encoded_end(q));
}

proof fn lemma_inner(before: Seq<u8>, s: Seq<u8>, after: Seq<u8>, i: int, j: int)
    requires
        0 <= i <= j <= s.len(),
    ensures
        (before + s + after).subrange(before.len() + i, before.len() + j) == s.subrange(i, j),
{
    assert((before + s + after).subrange(before.len() + i, before.len() + j) =~= s.subrange(i, j));
}

proof fn lemma_limits(q: SpawnRequestView)
    ensures
        encoded_limits(q).len() == 40,
        wire::le_value(encoded_limits(q).subrange(0, 8)) == q.memory_max_bytes,
        wire::le_value(encoded_limits(q).subrange(8, 16)) == q.cpu_quota_us,
        wire::le_value(encoded_limits(q).subrange(16, 24)) == q.cpu_period_us,
        wire::le_value(encoded_limits(q).subrange(24, 28)) == q.pids_max,
        wire::le_value(encoded_limits(q).subrange(28, 36)) == q.ttl_secs,
        wire::le_value(encoded_limits(q).subrange(36, 40)) == q.ttl_nanos,
{
    let b = encoded_limits(q);
    wire::lemma_le_range();
    wire::lemma_le_decodes(q.memory_max_bytes as nat, 8);
    wire::lemma_le_decodes(q.cpu_quota_us as nat, 8);
    wire::lemma_le_decodes(q.cpu_period_us as nat, 8);
    wire::lemma_le_decodes(q.pids_max as nat, 4);
    wire::lemma_le_decodes(q.ttl_secs as nat, 8);
    wire::lemma_le_decodes(q.ttl_nanos as nat, 4);
    assert(b.subrange(0, 8) =~= wire::le(q.memory_max_bytes as nat, 8));
    assert(b.subrange(8, 16) =~= wire::le(q.cpu_quota_us as nat, 8));
    assert(b.subrange(16, 24) =~= wire::le(q.cpu_period_us as nat, 8));
    assert(b.subrange(24, 28) =~= wire::le(q.pids_max as nat, 4));
    assert(b.subrange(28, 36) =~= wire::le(q.ttl_secs as nat, 8));
    assert(b.subrange(36, 40) =~= wire::le(q.ttl_nanos as nat, 4));
}

/// A list begins with its number of entries; an entry more is its length and its bytes
/// more at the end, and a pair is both of its paths, the one on the host first.
pub proof fn lists_hold_every_entry(
    list: Seq<Seq<u8>>,
    s: Seq<u8>,
    pairs: Seq<(Seq<u8>, Seq<u8>)>,
    pair: (Seq<u8>, Seq<u8>),
)
    requires
        list.len() < 0xffff_ffff,
        pairs.len() < 0xffff_ffff,
    ensures
        encoded_string_list(list).len() >= 4,
        wire::le_value(encoded_string_list(list).take(4)) == list.len(),
        encoded_string_list(list.push(s)).skip(4) == encoded_string_list(list).skip(4)
            + wire::encoded_bytes(s),
        encoded_pair_list(pairs).len() >= 4,
        wire::le_value(encoded_pair_list(pairs).take(4)) == pairs.len(),
        encoded_pair_list(pairs.push(pair)).skip(4) == encoded_pair_list(pairs).skip(4)
            + wire::encoded_bytes(pair.0) + wire::encoded_bytes(pair.1),
        encoded_string_list(Seq::empty()).len() == 4,
        encoded_pair_list(Seq::empty()).len() == 4,
{
    wire::lemma_le_range();
    wire::lemma_le_decodes(list.len(), 4);
    wire::lemma_le_decodes(pairs.len(), 4);
    wire::lemma_le_decodes(list.len() + 1, 4);
    wire::lemma_le_decodes(pairs.len() + 1, 4);
    wire::lemma_le_decodes(0, 4);
    assert(list.push(s).drop_last() =~= list);
    assert(pairs.push(pair).drop_last() =~= pairs);
    assert(encoded_string_list(list).take(4) =~= wire::le(list.len(), 4));
    assert(encoded_pair_list(pairs).take(4) =~= wire::le(pairs.len(), 4));
    assert(encoded_string_list(list).skip(4) =~= encoded_strings(list));
    assert(encoded_pair_list(pairs).skip(4) =~= encoded_pairs(pairs));
    assert(encoded_string_list(list.push(s)).skip(4) =~= encoded_strings(list.push(s)));
    assert(encoded_pair_list(pairs.push(pair)).skip(4) =~= encoded_pairs(pairs.push(pair)));
}

} // verus!
