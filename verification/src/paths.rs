//! Paths as byte strings.
use vstd::prelude::*;
use crate::wire;
use crate::wire::push_raw;

verus! {

/// The separator between the names of a path.
pub const SLASH: u8 = 47;

/// An absolute path begins with a slash.
pub open spec fn is_absolute(path: Seq<u8>) -> bool {
    path.len() > 0 && path[0] == SLASH
}

/// Whether a path is absolute.
pub fn absolute(path: &Vec<u8>) -> (yes: bool)
    ensures
        yes == is_absolute(path@),
{
    path.len() > 0 && path[0] == SLASH
}

/// A path below another: with exactly the separator between them that is missing.
/// An absolute path replaces the one that it is put below.
pub open spec fn below(base: Seq<u8>, path: Seq<u8>) -> Seq<u8> {
    if is_absolute(path) {
        path
    } else if base.len() == 0 || base.last() == SLASH {
        base + path
    } else {
        base.push(SLASH) + path
    }
}

/// Puts one path below another.
pub fn join(base: &Vec<u8>, path: &[u8]) -> (joined: Vec<u8>)
    ensures
        joined@ == below(base@, path@),
{
    let mut joined: Vec<u8> = Vec::new();
    if !(path.len() > 0 && path[0] == SLASH) {
        push_raw(&mut joined, base.as_slice());
        if base.len() > 0 && base[base.len() - 1] != SLASH {
            joined.push(SLASH);
        }
    }
    push_raw(&mut joined, path);
    assert(joined@ =~= below(base@, path@));
    joined
}

/// A path without the slashes that it begins with.
pub open spec fn relative(path: Seq<u8>) -> Seq<u8>
    decreases path.len(),
{
    if path.len() > 0 && path[0] == SLASH {
        relative(path.drop_first())
    } else {
        path
    }
}

/// A path without the slashes that it begins with.
pub fn strip_slashes(path: &[u8]) -> (rel: Vec<u8>)
    ensures
        rel@ == relative(path@),
{
    let mut from: usize = 0;
    assert(path@.subrange(0, path@.len() as int) =~= path@);
    while from < path.len() && path[from] == SLASH
        invariant
            from <= path@.len(),
            relative(path@) == relative(path@.subrange(from as int, path@.len() as int)),
        decreases path@.len() - from,
    {
        assert(path@.subrange(from as int, path@.len() as int).drop_first() =~= path@.subrange(
            from + 1,
            path@.len() as int,
        ));
        from += 1;
    }
    crate::wire::copy_range(path, from, path.len())
}

/// A path without leading slashes is not absolute.
pub proof fn relative_is_not_absolute(path: Seq<u8>)
    ensures
        !is_absolute(relative(path)),
    decreases path.len(),
{
    if path.len() > 0 && path[0] == SLASH {
        relative_is_not_absolute(path.drop_first());
    }
}

/// Whatever is put below a path as a relative path has a name that begins with it.
pub proof fn below_begins_with_base(base: Seq<u8>, path: Seq<u8>)
    requires
        !is_absolute(path),
    ensures
        below(base, path).len() >= base.len(),
        below(base, path).subrange(0, base.len() as int) == base,
{
    assert(below(base, path).subrange(0, base.len() as int) =~= base);
}

/// A copy of a byte string.
pub fn copy(bytes: &Vec<u8>) -> (c: Vec<u8>)
    ensures
        c@ == bytes@,
{
    let mut c: Vec<u8> = Vec::new();
    push_raw(&mut c, bytes.as_slice());
    assert(c@ =~= bytes@);
    c
}

/// A copy of a list of pairs of paths.
pub fn copy_pairs(list: &Vec<(Vec<u8>, Vec<u8>)>) -> (c: Vec<(Vec<u8>, Vec<u8>)>)
    ensures
        wire::pair_views(c@) == wire::pair_views(list@),
{
    let mut c: Vec<(Vec<u8>, Vec<u8>)> = Vec::new();
    let mut i: usize = 0;
    while i < list.len()
        invariant
            i <= list@.len(),
            c@.len() == i,
            forall|j: int|
                0 <= j < i ==> (#[trigger] c@[j]).0@ == list@[j].0@ && c@[j].1@ == list@[j].1@,
        decreases list@.len() - i,
    {
        c.push((copy(&list[i].0), copy(&list[i].1)));
        i += 1;
    }
    assert(wire::pair_views(c@) =~= wire::pair_views(list@));
    c
}

/// A copy of a list of byte strings.
pub fn copy_list(list: &Vec<Vec<u8>>) -> (c: Vec<Vec<u8>>)
    ensures
        wire::views(c@) == wire::views(list@),
{
    let mut c: Vec<Vec<u8>> = Vec::new();
    let mut i: usize = 0;
    while i < list.len()
        invariant
            i <= list@.len(),
            c@.len() == i,
            forall|j: int| 0 <= j < i ==> (#[trigger] c@[j])@ == list@[j]@,
        decreases list@.len() - i,
    {
        c.push(copy(&list[i]));
        i += 1;
    }
    assert(wire::views(c@) =~= wire::views(list@));
    c
}

/// The bytes of a string.
pub fn bytes_of(s: &str) -> (b: Vec<u8>)
    ensures
        b@ == vstd::utf8::encode_utf8(s@),
{
    let mut b: Vec<u8> = Vec::new();
    push_raw(&mut b, s.as_bytes());
    assert(b@ =~= vstd::utf8::encode_utf8(s@));
    b
}

// ---- Laws ----

/// A name put below a directory keeps both: the directory, one slash, unless the
/// directory ends with one, and the name. An absolute path stays what it is.
pub proof fn below_keeps_both_names(base: Seq<u8>, path: Seq<u8>)
    ensures
        path.len() > 0 && path[0] == 47 ==> below(base, path) == path,
        !(path.len() > 0 && path[0] == 47) ==> {
            let n = if base.len() > 0 && base.last() != 47 {
                base.len() + 1
            } else {
                base.len()
            };
            &&& below(base, path).len() == n + path.len()
            &&& forall|i: int| 0 <= i < base.len() ==> #[trigger] below(base, path)[i] == base[i]
            &&& n > base.len() ==> below(base, path)[base.len() as int] == 47
            &&& forall|i: int| 0 <= i < path.len() ==> below(base, path)[n + i] == #[trigger] path[i]
        },
{
}

/// Of a path, all is kept but the slashes that it begins with.
pub proof fn only_leading_slashes_are_left_out(path: Seq<u8>)
    ensures
        exists|k: int|
            {
                &&& 0 <= k <= path.len()
                &&& relative(path) == #[trigger] path.skip(k)
                &&& forall|i: int| 0 <= i < k ==> #[trigger] path[i] == 47
                &&& k < path.len() ==> path[k] != 47
            },
    decreases path.len(),
{
    if path.len() > 0 && path[0] == 47 {
        let rest = path.drop_first();
        only_leading_slashes_are_left_out(rest);
        let k = choose|k: int|
            {
                &&& 0 <= k <= rest.len()
                &&& relative(rest) == #[trigger] rest.skip(k)
                &&& forall|i: int| 0 <= i < k ==> #[trigger] rest[i] == 47
                &&& k < rest.len() ==> rest[k] != 47
            };
        assert(rest.skip(k) =~= path.skip(k + 1));
        assert forall|i: int| 0 <= i < k + 1 implies #[trigger] path[i] == 47 by {
            if i > 0 {
                assert(rest[i - 1] == 47);
            }
        }
    } else {
        assert(path.skip(0) =~= path);
    }
}

} // verus!
