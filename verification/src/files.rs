//! Text that is to be written to a file.
use vstd::prelude::*;
use vstd::string::*;
use crate::text;
use crate::text::push_decimal;
use crate::wire::push_raw;

verus! {

/// A file and what is to be written to it; `P` holds a byte string.
pub struct FileWrite<P> {
    pub path: P,
    pub content: P,
}

impl View for FileWrite<Vec<u8>> {
    type V = FileWrite<Seq<u8>>;

    open spec fn view(&self) -> FileWrite<Seq<u8>> {
        FileWrite { path: self.path@, content: self.content@ }
    }
}

/// A signed number in decimal, as bytes.
pub open spec fn signed_bytes(v: int) -> Seq<u8> {
    text::ascii(text::signed_decimal(v))
}

/// An unsigned number in decimal, as bytes.
pub open spec fn number_bytes(n: nat) -> Seq<u8> {
    text::ascii(text::decimal(n))
}

/// Appends a signed number in decimal.
pub fn push_signed(b: &mut Vec<u8>, v: i32)
    ensures
        final(b)@ == old(b)@ + signed_bytes(v as int),
{
    let ghost start = b@;
    if v < 0 {
        b.push(45);
        push_decimal(b, (-(v as i64)) as u64);
    } else {
        push_decimal(b, v as u64);
    }
    assert(b@ =~= start + signed_bytes(v as int));
}

/// Appends the bytes of a string.
pub fn push_str(b: &mut Vec<u8>, s: &str)
    ensures
        final(b)@ == old(b)@ + s.spec_bytes(),
{
    push_raw(b, s.as_bytes());
}

/// An unsigned number in decimal.
pub fn number(n: u64) -> (b: Vec<u8>)
    ensures
        b@ == number_bytes(n as nat),
{
    let mut b: Vec<u8> = Vec::new();
    push_decimal(&mut b, n);
    assert(b@ =~= number_bytes(n as nat));
    b
}

/// A signed number in decimal.
pub fn signed(v: i32) -> (b: Vec<u8>)
    ensures
        b@ == signed_bytes(v as int),
{
    let mut b: Vec<u8> = Vec::new();
    push_signed(&mut b, v);
    assert(b@ =~= signed_bytes(v as int));
    b
}

// ---- Laws ----

/// The number that a byte string of decimal digits stands for.
pub open spec fn value_of_digits(b: Seq<u8>) -> nat
    decreases b.len(),
{
    if b.len() == 0 {
        0
    } else {
        (10 * value_of_digits(b.drop_last()) + (b.last() - 48)) as nat
    }
}

/// Only decimal digits, at least one of them, and no zero before another digit.
pub open spec fn is_plain_number(b: Seq<u8>) -> bool {
    &&& b.len() > 0
    &&& forall|i: int| 0 <= i < b.len() ==> 48 <= #[trigger] b[i] <= 57
    &&& b.len() > 1 ==> b[0] != 48
}

/// What is written of a number is made of digits alone, and they stand for it; of a
/// negative one, they follow a minus sign.
pub proof fn written_numbers_read_back(n: nat, v: int)
    ensures
        is_plain_number(number_bytes(n)),
        value_of_digits(number_bytes(n)) == n,
        v >= 0 ==> is_plain_number(signed_bytes(v)) && value_of_digits(signed_bytes(v)) == v,
        v < 0 ==> {
            &&& signed_bytes(v).len() > 1
            &&& signed_bytes(v)[0] == 45
            &&& is_plain_number(signed_bytes(v).drop_first())
            &&& value_of_digits(signed_bytes(v).drop_first()) == -v
        },
{
    lemma_number_bytes(n);
    if v >= 0 {
        lemma_number_bytes(v as nat);
    } else {
        lemma_number_bytes((-v) as nat);
        assert(signed_bytes(v).drop_first() =~= number_bytes((-v) as nat));
    }
}

proof fn lemma_number_bytes(n: nat)
    ensures
        is_plain_number(number_bytes(n)),
        value_of_digits(number_bytes(n)) == n,
        n > 0 ==> number_bytes(n)[0] != 48,
    decreases n,
{
    let b = number_bytes(n);
    if n >= 10 {
        lemma_number_bytes(n / 10);
        let shorter = number_bytes(n / 10);
        assert(b.drop_last() =~= shorter);
        assert(b.last() == 48 + n % 10);
        assert forall|i: int| 0 <= i < b.len() implies 48 <= #[trigger] b[i] <= 57 by {
            if i < shorter.len() {
                assert(b[i] == shorter[i]);
            }
        }
        assert(b[0] == shorter[0]);
    } else {
        assert(b.drop_last() =~= Seq::<u8>::empty());
        assert(b.last() == 48 + n);
        reveal_with_fuel(value_of_digits, 2);
    }
}

/// What is said of a write is what it holds.
pub proof fn writes_are_taken_as_they_are(write: FileWrite<Vec<u8>>)
    ensures
        write@.path == write.path@,
        write@.content == write.content@,
{
}

} // verus!
