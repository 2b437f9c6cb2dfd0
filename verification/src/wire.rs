//! Little-endian integers and length-prefixed byte strings: the building
//! blocks of the wire format.
use vstd::arithmetic::div_mod::lemma_div_denominator;
use vstd::arithmetic::power::{lemma_pow0, lemma_pow1, lemma_pow_adds, lemma_pow_positive, pow};
use vstd::prelude::*;

verus! {

// ---- Lists ----

/// What the byte strings of a list hold.
pub open spec fn views(list: Seq<Vec<u8>>) -> Seq<Seq<u8>> {
    Seq::new(list.len(), |i: int| list[i]@)
}

/// What the pairs of paths of a list hold.
pub open spec fn pair_views(list: Seq<(Vec<u8>, Vec<u8>)>) -> Seq<(Seq<u8>, Seq<u8>)> {
    Seq::new(list.len(), |i: int| (list[i].0@, list[i].1@))
}

// ---- Encoding ----

/// The low `n` bytes of `v`, least significant first.
pub open spec fn le(v: nat, n: nat) -> Seq<u8>
    decreases n,
{
    if n == 0 {
        Seq::empty()
    } else {
        seq![(v % 256) as u8] + le(v / 256, (n - 1) as nat)
    }
}

/// The number that the bytes of `s` stand for, least significant first.
pub open spec fn le_value(s: Seq<u8>) -> nat
    decreases s.len(),
{
    if s.len() == 0 {
        0
    } else {
        s[0] as nat + 256 * le_value(s.drop_first())
    }
}

/// How many numbers `n` bytes can tell apart.
pub open spec fn le_range(n: nat) -> nat
    decreases n,
{
    if n == 0 {
        1
    } else {
        256 * le_range((n - 1) as nat)
    }
}

/// A byte string with its length in front (the low 32 bits of it).
pub open spec fn encoded_bytes(s: Seq<u8>) -> Seq<u8> {
    le(s.len(), 4) + s
}

/// The largest length that a length prefix can hold, plus one.
pub open spec fn length_limit() -> nat {
    0x1_0000_0000
}

pub proof fn lemma_le_range()
    ensures
        le_range(4) == 0x1_0000_0000,
        le_range(8) == 0x1_0000_0000_0000_0000,
{
    reveal_with_fuel(le_range, 9);
}

pub proof fn lemma_le_len(v: nat, n: nat)
    ensures
        le(v, n).len() == n,
    decreases n,
{
    if n > 0 {
        lemma_le_len(v / 256, (n - 1) as nat);
    }
}

/// Decoding an encoded number gives it back.
pub proof fn lemma_le_decodes(v: nat, n: nat)
    requires
        v < le_range(n),
    ensures
        le(v, n).len() == n,
        le_value(le(v, n)) == v,
    decreases n,
{
    if n > 0 {
        lemma_le_len(v, n);
        lemma_le_decodes(v / 256, (n - 1) as nat);
        assert(le(v, n).drop_first() =~= le(v / 256, (n - 1) as nat));
    }
}

/// Encoding a decoded number gives the bytes back.
pub proof fn lemma_le_encodes(s: Seq<u8>)
    ensures
        le_value(s) < le_range(s.len()),
        le(le_value(s), s.len()) == s,
    decreases s.len(),
{
    if s.len() > 0 {
        let rest = s.drop_first();
        lemma_le_encodes(rest);
        let v = le_value(s);
        assert(v % 256 == s[0] && v / 256 == le_value(rest));
        assert(seq![s[0]] + rest =~= s);
    } else {
        assert(le(0, 0) =~= s);
    }
}

/// Appends the low `n` bytes of a number.
fn push_le(b: &mut Vec<u8>, v: u64, n: u32)
    ensures
        final(b)@ == old(b)@ + le(v as nat, n as nat),
{
    let ghost start = b@;
    let mut rest: u64 = v;
    let mut left: u32 = n;
    assert(b@ + le(rest as nat, left as nat) =~= start + le(v as nat, n as nat));
    while left > 0
        invariant
            b@ + le(rest as nat, left as nat) == start + le(v as nat, n as nat),
        decreases left,
    {
        let ghost before = b@;
        b.push((rest % 256) as u8);
        assert(b@ + le(rest as nat / 256, (left - 1) as nat) =~= before + le(
            rest as nat,
            left as nat,
        ));
        rest = rest / 256;
        left = left - 1;
    }
    assert(b@ =~= b@ + le(rest as nat, 0));
}

/// Appends a 32-bit integer.
pub fn push_u32(b: &mut Vec<u8>, v: u32)
    ensures
        final(b)@ == old(b)@ + le(v as nat, 4),
{
    push_le(b, v as u64, 4);
}

/// Appends a 64-bit integer.
pub fn push_u64(b: &mut Vec<u8>, v: u64)
    ensures
        final(b)@ == old(b)@ + le(v as nat, 8),
{
    push_le(b, v, 8);
}

/// Appends the low 32 bits of a length or count.
pub fn push_len(b: &mut Vec<u8>, len: usize)
    ensures
        final(b)@ == old(b)@ + le(len as nat, 4),
{
    push_le(b, len as u64, 4);
}

/// Appends bytes as they are.
pub fn push_raw(b: &mut Vec<u8>, data: &[u8])
    ensures
        final(b)@ == old(b)@ + data@,
{
    let ghost start = b@;
    b.extend_from_slice(data);
    assert(b@ =~= start + data@);
}

/// Appends a byte string with its length in front.
pub fn push_bytes(b: &mut Vec<u8>, data: &[u8])
    ensures
        final(b)@ == old(b)@ + encoded_bytes(data@),
{
    let ghost start = b@;
    push_len(b, data.len());
    push_raw(b, data);
    assert(b@ =~= start + encoded_bytes(data@));
}

/// Appends a path, which is a byte string.
pub fn push_path(b: &mut Vec<u8>, path: &Vec<u8>)
    ensures
        final(b)@ == old(b)@ + encoded_bytes(path@),
{
    push_bytes(b, path.as_slice());
}

// ---- Decoding ----

/// The `n`-byte integer at position `p`, and the position behind it.
pub open spec fn int_at(buf: Seq<u8>, p: int, n: nat) -> Option<(nat, int)> {
    if 0 <= p && p + n <= buf.len() {
        Some((le_value(buf.subrange(p, p + n)), p + n))
    } else {
        None
    }
}

/// The length-prefixed byte string at position `p`, and the position behind it.
pub open spec fn bytes_at(buf: Seq<u8>, p: int) -> Option<(Seq<u8>, int)> {
    match int_at(buf, p, 4) {
        Some((len, q)) => if q + len <= buf.len() {
            Some((buf.subrange(q, q + len), q + len))
        } else {
            None
        },
        None => None,
    }
}

/// A byte string that can be handed to C: it holds no zero byte.
pub open spec fn is_c_string(s: Seq<u8>) -> bool {
    !s.contains(0)
}

/// As `bytes_at`, for a string without zero bytes.
pub open spec fn c_string_at(buf: Seq<u8>, p: int) -> Option<(Seq<u8>, int)> {
    match bytes_at(buf, p) {
        Some((s, q)) => if is_c_string(s) {
            Some((s, q))
        } else {
            None
        },
        None => None,
    }
}

/// `piece` stands in `buf` at position `p`.
pub open spec fn stands_at(buf: Seq<u8>, p: int, piece: Seq<u8>) -> bool {
    &&& 0 <= p
    &&& p + piece.len() <= buf.len()
    &&& buf.subrange(p, p + piece.len()) == piece
}

pub proof fn lemma_stands_concat(buf: Seq<u8>, p: int, a: Seq<u8>, b: Seq<u8>)
    ensures
        stands_at(buf, p, a + b) <==> stands_at(buf, p, a) && stands_at(buf, p + a.len(), b),
{
    let ab = a + b;
    if stands_at(buf, p, ab) {
        let w = buf.subrange(p, p + ab.len());
        assert(w.subrange(0, a.len() as int) =~= buf.subrange(p, p + a.len()));
        assert(ab.subrange(0, a.len() as int) =~= a);
        assert(w.subrange(a.len() as int, ab.len() as int) =~= buf.subrange(
            p + a.len(),
            p + a.len() + b.len(),
        ));
        assert(ab.subrange(a.len() as int, ab.len() as int) =~= b);
    }
    if stands_at(buf, p, a) && stands_at(buf, p + a.len(), b) {
        assert(buf.subrange(p, p + ab.len()) =~= buf.subrange(p, p + a.len()) + buf.subrange(
            p + a.len(),
            p + a.len() + b.len(),
        ));
    }
}

/// An integer is read at a position if and only if its encoding stands there.
pub proof fn lemma_int_at(buf: Seq<u8>, p: int, n: nat, v: nat, q: int)
    ensures
        int_at(buf, p, n) == Some((v, q)) <==> v < le_range(n) && q == p + n && stands_at(
            buf,
            p,
            le(v, n),
        ),
{
    lemma_le_len(v, n);
    if 0 <= p && p + n <= buf.len() {
        lemma_le_encodes(buf.subrange(p, p + n));
        if v < le_range(n) {
            lemma_le_decodes(v, n);
        }
    }
}

/// A byte string is read at a position if and only if its encoding stands there.
pub proof fn lemma_bytes_at(buf: Seq<u8>, p: int, s: Seq<u8>, q: int)
    ensures
        bytes_at(buf, p) == Some((s, q)) <==> s.len() < length_limit() && q == p + 4 + s.len()
            && stands_at(buf, p, encoded_bytes(s)),
{
    lemma_le_range();
    lemma_le_len(s.len(), 4);
    lemma_int_at(buf, p, 4, s.len(), p + 4);
    lemma_stands_concat(buf, p, le(s.len(), 4), s);
    if bytes_at(buf, p) == Some((s, q)) {
        let (len, r) = int_at(buf, p, 4)->0;
        assert(s.len() == len);
    }
}

/// Reads an `n`-byte integer and moves behind it; where it does not fit into
/// the buffer nothing moves.
fn pull_le(buf: &[u8], p: &mut usize, n: usize) -> (v: Option<u64>)
    requires
        n <= 8,
    ensures
        match int_at(buf@, *old(p) as int, n as nat) {
            Some((x, q)) => v is Some && v->0 == x && *final(p) == q,
            None => v is None && *final(p) == *old(p),
        },
{
    let total: usize = buf.len();
    let start: usize = *p;
    let end: usize = match start.checked_add(n) {
        Some(e) => if e <= total {
            e
        } else {
            return None;
        },
        None => {
            return None;
        },
    };
    let mut v: u64 = 0;
    let mut i: usize = end;
    assert(buf@.subrange(end as int, end as int) =~= Seq::<u8>::empty());
    while i > start
        invariant
            start <= i <= end <= buf@.len(),
            end == start + n,
            n <= 8,
            v == le_value(buf@.subrange(i as int, end as int)),
        decreases i - start,
    {
        i = i - 1;
        let ghost s = buf@.subrange(i as int, end as int);
        proof {
            assert(s.drop_first() =~= buf@.subrange(i + 1, end as int));
            lemma_le_encodes(s);
            assert(le_range(s.len()) <= le_range(8)) by {
                reveal_with_fuel(le_range, 9);
            }
            lemma_le_range();
        }
        v = v * 256 + buf[i] as u64;
    }
    *p = end;
    Some(v)
}

/// Reads a 32-bit integer and moves behind it; where the buffer is too short
/// nothing moves.
pub fn pull_u32(buf: &[u8], p: &mut usize) -> (v: Option<u32>)
    ensures
        match int_at(buf@, *old(p) as int, 4) {
            Some((x, q)) => v is Some && v->0 == x && *final(p) == q,
            None => v is None && *final(p) == *old(p),
        },
{
    proof {
        let at = *p as int;
        if at + 4 <= buf@.len() {
            lemma_le_encodes(buf@.subrange(at, at + 4));
            lemma_le_range();
        }
    }
    match pull_le(buf, p, 4) {
        Some(v) => Some(v as u32),
        None => None,
    }
}

/// Reads a 64-bit integer and moves behind it; where the buffer is too short
/// nothing moves.
pub fn pull_u64(buf: &[u8], p: &mut usize) -> (v: Option<u64>)
    ensures
        match int_at(buf@, *old(p) as int, 8) {
            Some((x, q)) => v is Some && v->0 == x && *final(p) == q,
            None => v is None && *final(p) == *old(p),
        },
{
    pull_le(buf, p, 8)
}

/// The bytes of a buffer from one position to another.
pub fn copy_range(buf: &[u8], from: usize, to: usize) -> (copy: Vec<u8>)
    requires
        from <= to <= buf@.len(),
    ensures
        copy@ == buf@.subrange(from as int, to as int),
{
    let mut copy: Vec<u8> = Vec::with_capacity(to - from);
    let mut i: usize = from;
    while i < to
        invariant
            from <= i <= to <= buf@.len(),
            copy@ == buf@.subrange(from as int, i as int),
        decreases to - i,
    {
        copy.push(buf[i]);
        i += 1;
        assert(copy@ =~= buf@.subrange(from as int, i as int));
    }
    copy
}

/// Reads a length-prefixed byte string and moves behind it. Where the string
/// does not fit, only its length has been passed; where not even the length
/// fits, nothing moves.
pub fn pull_bytes(buf: &[u8], p: &mut usize) -> (data: Option<Vec<u8>>)
    ensures
        match bytes_at(buf@, *old(p) as int) {
            Some((s, q)) => data is Some && data->0@ == s && *final(p) == q,
            None => data is None && *final(p) == (if int_at(buf@, *old(p) as int, 4) is Some {
                *old(p) + 4
            } else {
                *old(p) as int
            }),
        },
{
    let len: usize = match pull_u32(buf, p) {
        Some(len) => len as usize,
        None => {
            return None;
        },
    };
    let total: usize = buf.len();
    let start: usize = *p;
    let end: usize = match start.checked_add(len) {
        Some(e) => if e <= total {
            e
        } else {
            return None;
        },
        None => {
            return None;
        },
    };
    let data = copy_range(buf, start, end);
    *p = end;
    Some(data)
}

/// Reads a path.
pub fn pull_path(buf: &[u8], p: &mut usize) -> (path: Option<Vec<u8>>)
    ensures
        match bytes_at(buf@, *old(p) as int) {
            Some((s, q)) => path is Some && path->0@ == s && *final(p) == q,
            None => path is None,
        },
{
    pull_bytes(buf, p)
}

/// Whether a byte string holds no zero byte.
pub fn c_string_ok(s: &[u8]) -> (ok: bool)
    ensures
        ok == is_c_string(s@),
{
    let mut i: usize = 0;
    while i < s.len()
        invariant
            i <= s@.len(),
            forall|j: int| 0 <= j < i ==> s@[j] != 0,
        decreases s@.len() - i,
    {
        if s[i] == 0 {
            return false;
        }
        i += 1;
    }
    true
}

/// Reads a string that has to be free of zero bytes.
pub fn pull_cstring(buf: &[u8], p: &mut usize) -> (s: Option<Vec<u8>>)
    ensures
        match c_string_at(buf@, *old(p) as int) {
            Some((x, q)) => s is Some && s->0@ == x && *final(p) == q,
            None => s is None,
        },
{
    match pull_bytes(buf, p) {
        Some(data) => if c_string_ok(data.as_slice()) {
            Some(data)
        } else {
            None
        },
        None => None,
    }
}

// ---- Laws ----

/// Lists of byte strings are taken as they are: as many, in order, each with its
/// bytes.
pub proof fn lists_are_taken_as_they_are(
    list: Seq<Vec<u8>>,
    pairs: Seq<(Vec<u8>, Vec<u8>)>,
    i: int,
)
    ensures
        views(list).len() == list.len(),
        0 <= i < list.len() ==> views(list)[i] == list[i]@,
        pair_views(pairs).len() == pairs.len(),
        0 <= i < pairs.len() ==> pair_views(pairs)[i] == (pairs[i].0@, pairs[i].1@),
{
}

/// The byte at a place of an encoded number is the remainder by 256 of the number
/// divided by as many times 256 as there are bytes before it.
pub proof fn bytes_stand_in_their_places(v: nat, n: nat, k: nat)
    requires
        k < n,
    ensures
        le(v, n).len() == n,
        le(v, n)[k as int] == (v as int / pow(256, k)) % 256,
    decreases n,
{
    lemma_le_len(v, n);
    lemma_pow0(256);
    let rest = le(v / 256, (n - 1) as nat);
    if k > 0 {
        bytes_stand_in_their_places(v / 256, (n - 1) as nat, (k - 1) as nat);
        assert(le(v, n)[k as int] == rest[k - 1]);
        lemma_pow1(256);
        lemma_pow_adds(256, 1, (k - 1) as nat);
        lemma_pow_positive(256, (k - 1) as nat);
        lemma_div_denominator(v as int, 256, pow(256, (k - 1) as nat));
    } else {
        assert(v as int / pow(256, 0) == v);
    }
}

/// The length in front of a byte string is read back from its first four bytes, the
/// lowest of which comes first, and the bytes follow unchanged.
pub proof fn byte_strings_follow_their_length(s: Seq<u8>)
    requires
        s.len() < 0x1_0000_0000,
    ensures
        encoded_bytes(s).len() == s.len() + 4,
        encoded_bytes(s)[0] + 256 * encoded_bytes(s)[1] + 65_536 * encoded_bytes(s)[2] + 16_777_216
            * encoded_bytes(s)[3] == s.len(),
        encoded_bytes(s).skip(4) == s,
        length_limit() == 0x1_0000_0000,
{
    lemma_le_range();
    lemma_le_decodes(s.len(), 4);
    lemma_four_bytes(le(s.len(), 4));
    assert(encoded_bytes(s).skip(4) =~= s);
}

/// What four bytes stand for.
pub proof fn lemma_four_bytes(b: Seq<u8>)
    requires
        b.len() == 4,
    ensures
        le_value(b) == b[0] + 256 * b[1] + 65_536 * b[2] + 16_777_216 * b[3],
{
    reveal_with_fuel(le_value, 5);
    let b1 = b.drop_first();
    let b2 = b1.drop_first();
    let b3 = b2.drop_first();
    assert(b1[0] == b[1] && b2[0] == b[2] && b3[0] == b[3]);
    assert(b3.drop_first().len() == 0);
}

/// A string can stand as a C string exactly if none of its bytes is zero.
pub proof fn c_strings_hold_no_zero_byte(s: Seq<u8>)
    ensures
        is_c_string(s) <==> forall|i: int| 0 <= i < s.len() ==> #[trigger] s[i] != 0,
{
    if !is_c_string(s) {
        let i = choose|i: int| 0 <= i < s.len() && s[i] == 0;
        assert(s[i] == 0);
    }
}

} // verus!
