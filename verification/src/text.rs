//! Text: decimal numbers, words and lines, and byte-string basics.
use vstd::arithmetic::div_mod::lemma_div_denominator;
use vstd::arithmetic::power::{lemma_pow0, lemma_pow1, lemma_pow_adds, lemma_pow_positive, pow};
use vstd::prelude::*;
use vstd::string::*;

verus! {

/// Whether two byte strings are equal.
pub fn same_bytes(a: &[u8], b: &[u8]) -> (same: bool)
    ensures
        same == (a@ == b@),
{
    if a.len() != b.len() {
        return false;
    }
    let mut i: usize = 0;
    while i < a.len()
        invariant
            i <= a.len(),
            a@.len() == b@.len(),
            forall|j: int| 0 <= j < i ==> a@[j] == b@[j],
        decreases a.len() - i,
    {
        if a[i] != b[i] {
            return false;
        }
        i += 1;
    }
    assert(a@ =~= b@);
    true
}

/// Whether two strings are equal.
pub fn same_text(a: &str, b: &str) -> (same: bool)
    ensures
        same == (a@ == b@),
{
    proof {
        vstd::utf8::encode_utf8_decode_utf8(a@);
        vstd::utf8::encode_utf8_decode_utf8(b@);
    }
    same_bytes(a.as_bytes(), b.as_bytes())
}

/// The characters of a string.
pub fn chars_of(s: &str) -> (chars: Vec<char>)
    ensures
        chars@ == s@,
{
    let mut chars: Vec<char> = Vec::new();
    for c in it: s.chars()
        invariant
            chars@ == it.seq().take(it.index() as int),
            it.seq() == s@,
    {
        chars.push(c);
        assert(chars@ =~= it.seq().take(it.index() + 1));
    }
    assert(chars@ =~= s@);
    chars
}

/// What a byte string reads as text, damaged parts replaced.
pub uninterp spec fn lossy_text(bytes: Seq<u8>) -> Seq<char>;

/// `String::from_utf8_lossy`: valid UTF-8 is decoded; any other byte string
/// becomes text in which the replacement character stands for what is no UTF-8.
#[verifier::external_body]
pub(crate) fn to_text_lossy(bytes: &[u8]) -> (s: String)
    ensures
        s@ == lossy_text(bytes@),
        vstd::utf8::valid_utf8(bytes@) ==> s@ == vstd::utf8::decode_utf8(bytes@),
{
    String::from_utf8_lossy(bytes).into_owned()
}

// ---- Writing numbers ----

/// The character of a decimal digit.
pub open spec fn digit_char(d: nat) -> char {
    (48 + d) as char
}

/// A number in decimal, without leading zeros.
pub open spec fn decimal(n: nat) -> Seq<char>
    decreases n,
{
    if n < 10 {
        seq![digit_char(n)]
    } else {
        decimal(n / 10).push(digit_char(n % 10))
    }
}

/// A number in decimal, with a minus sign if it is negative.
pub open spec fn signed_decimal(v: int) -> Seq<char> {
    if v < 0 {
        seq!['-'] + decimal((-v) as nat)
    } else {
        decimal(v as nat)
    }
}

/// The bytes of ASCII text.
pub open spec fn ascii(s: Seq<char>) -> Seq<u8> {
    Seq::new(s.len(), |i: int| s[i] as u8)
}

/// Appends a number in decimal to a byte string.
pub fn push_decimal(b: &mut Vec<u8>, n: u64)
    ensures
        final(b)@ == old(b)@ + ascii(decimal(n as nat)),
    decreases n,
{
    let ghost start = b@;
    if n >= 10 {
        push_decimal(b, n / 10);
    }
    b.push(48 + (n % 10) as u8);
    assert(b@ =~= start + ascii(decimal(n as nat)));
}

/// Appends a digit to a string.
fn append_digit(s: &mut String, d: u64)
    requires
        d < 10,
    ensures
        final(s)@ == old(s)@.push(digit_char(d as nat)),
{
    let text = if d == 0 {
        "0"
    } else if d == 1 {
        "1"
    } else if d == 2 {
        "2"
    } else if d == 3 {
        "3"
    } else if d == 4 {
        "4"
    } else if d == 5 {
        "5"
    } else if d == 6 {
        "6"
    } else if d == 7 {
        "7"
    } else if d == 8 {
        "8"
    } else {
        "9"
    };
    proof {
        reveal_strlit("0");
        reveal_strlit("1");
        reveal_strlit("2");
        reveal_strlit("3");
        reveal_strlit("4");
        reveal_strlit("5");
        reveal_strlit("6");
        reveal_strlit("7");
        reveal_strlit("8");
        reveal_strlit("9");
        assert(text@ =~= seq![digit_char(d as nat)]);
    }
    let ghost start = s@;
    s.append(text);
    assert(s@ =~= start.push(digit_char(d as nat)));
}

/// Appends a number in decimal to a string.
pub fn append_decimal(s: &mut String, n: u64)
    ensures
        final(s)@ == old(s)@ + decimal(n as nat),
    decreases n,
{
    let ghost start = s@;
    if n >= 10 {
        append_decimal(s, n / 10);
    }
    append_digit(s, n % 10);
    assert(s@ =~= start + decimal(n as nat));
}

/// Appends a signed number in decimal to a string.
pub fn append_signed(s: &mut String, v: i32)
    ensures
        final(s)@ == old(s)@ + signed_decimal(v as int),
{
    let ghost start = s@;
    if v < 0 {
        proof {
            reveal_strlit("-");
        }
        s.append("-");
        append_decimal(s, (-(v as i64)) as u64);
        assert("-"@ =~= seq!['-']);
        assert(s@ =~= start + signed_decimal(v as int));
    } else {
        append_decimal(s, v as u64);
    }
}

// ---- Reading numbers ----

pub open spec fn is_digit(c: char) -> bool {
    '0' <= c && c <= '9'
}

pub open spec fn all_digits(s: Seq<char>) -> bool {
    forall|i: int| 0 <= i < s.len() ==> is_digit(#[trigger] s[i])
}

/// The number that decimal digits stand for.
pub open spec fn digits_value(s: Seq<char>) -> nat
    decreases s.len(),
{
    if s.len() == 0 {
        0
    } else {
        10 * digits_value(s.drop_last()) + (s.last() as nat - 48) as nat
    }
}

/// Digits, at least one of them, that stand for a number up to `max`.
pub open spec fn digits_up_to(s: Seq<char>, max: nat) -> Option<nat> {
    if s.len() > 0 && all_digits(s) && digits_value(s) <= max {
        Some(digits_value(s))
    } else {
        None
    }
}

/// An unsigned 64-bit number in decimal; a plus sign may precede the digits.
pub open spec fn unsigned_number(s: Seq<char>) -> Option<nat> {
    if s.len() > 0 && s[0] == '+' {
        digits_up_to(s.drop_first(), u64::MAX as nat)
    } else {
        digits_up_to(s, u64::MAX as nat)
    }
}

/// A signed 32-bit number in decimal; a sign may precede the digits.
pub open spec fn signed_number(s: Seq<char>) -> Option<int> {
    if s.len() > 0 && s[0] == '-' {
        match digits_up_to(s.drop_first(), 0x8000_0000) {
            Some(n) => Some(-(n as int)),
            None => None,
        }
    } else {
        match digits_up_to(
            if s.len() > 0 && s[0] == '+' {
                s.drop_first()
            } else {
                s
            },
            0x7fff_ffff,
        ) {
            Some(n) => Some(n as int),
            None => None,
        }
    }
}

proof fn lemma_digits_value_grows(s: Seq<char>, k: int)
    requires
        0 <= k <= s.len(),
        all_digits(s),
    ensures
        digits_value(s.take(k)) <= digits_value(s),
    decreases s.len() - k,
{
    if k < s.len() {
        lemma_digits_value_grows(s, k + 1);
        assert(s.take(k + 1).drop_last() =~= s.take(k));
    } else {
        assert(s.take(k) =~= s);
    }
}

/// Reads the digits of `cs` from position `from` to position `to`.
fn parse_digits(cs: &Vec<char>, from: usize, to: usize, max: u64) -> (n: Option<u64>)
    requires
        from <= to <= cs@.len(),
    ensures
        match digits_up_to(cs@.subrange(from as int, to as int), max as nat) {
            Some(v) => n is Some && n->0 == v,
            None => n is None,
        },
{
    let ghost s = cs@.subrange(from as int, to as int);
    if from == to {
        return None;
    }
    let mut n: u64 = 0;
    let mut i: usize = from;
    while i < to
        invariant
            from <= i <= to <= cs@.len(),
            s == cs@.subrange(from as int, to as int),
            forall|j: int| 0 <= j < i - from ==> is_digit(#[trigger] s[j]),
            n == digits_value(s.take(i - from)),
            n <= max,
        decreases to - i,
    {
        let c = cs[i];
        assert(c == s[i - from]);
        if !('0' <= c && c <= '9') {
            return None;
        }
        let d: u64 = (c as u32 - 48) as u64;
        proof {
            assert(s.take(i + 1 - from).drop_last() =~= s.take(i - from));
            assert(s.take(i + 1 - from).last() == c);
            if all_digits(s) {
                lemma_digits_value_grows(s, i + 1 - from);
            }
        }
        if n > max / 10 || d > max - n * 10 {
            return None;
        }
        n = n * 10 + d;
        i += 1;
    }
    assert(s.take(to - from) =~= s);
    Some(n)
}

/// Reads an unsigned number from the characters between two positions.
pub fn parse_unsigned(cs: &Vec<char>, from: usize, to: usize) -> (n: Option<u64>)
    requires
        from <= to <= cs@.len(),
    ensures
        match unsigned_number(cs@.subrange(from as int, to as int)) {
            Some(v) => n is Some && n->0 == v,
            None => n is None,
        },
{
    if from < to && cs[from] == '+' {
        assert(cs@.subrange(from as int, to as int).drop_first() =~= cs@.subrange(
            from + 1,
            to as int,
        ));
        parse_digits(cs, from + 1, to, u64::MAX)
    } else {
        parse_digits(cs, from, to, u64::MAX)
    }
}

/// Reads a signed number from the characters between two positions.
pub fn parse_signed(cs: &Vec<char>, from: usize, to: usize) -> (n: Option<i32>)
    requires
        from <= to <= cs@.len(),
    ensures
        match signed_number(cs@.subrange(from as int, to as int)) {
            Some(v) => n is Some && n->0 == v,
            None => n is None,
        },
{
    let ghost s = cs@.subrange(from as int, to as int);
    if from < to {
        assert(s.drop_first() =~= cs@.subrange(from + 1, to as int));
    }
    if from < to && cs[from] == '-' {
        match parse_digits(cs, from + 1, to, 0x8000_0000) {
            Some(n) => Some((-(n as i64)) as i32),
            None => None,
        }
    } else {
        let start: usize = if from < to && cs[from] == '+' {
            from + 1
        } else {
            from
        };
        match parse_digits(cs, start, to, 0x7fff_ffff) {
            Some(n) => Some(n as i32),
            None => None,
        }
    }
}

/// Reading a written number gives it back.
pub proof fn decimal_reads_back(n: nat)
    ensures
        decimal(n).len() > 0,
        all_digits(decimal(n)),
        digits_value(decimal(n)) == n,
    decreases n,
{
    if n >= 10 {
        decimal_reads_back(n / 10);
        assert(decimal(n).drop_last() =~= decimal(n / 10));
    } else {
        assert(decimal(n).drop_last() =~= Seq::empty());
        reveal_with_fuel(digits_value, 2);
    }
}

/// Reading a written signed number gives it back.
pub proof fn signed_decimal_reads_back(v: int)
    requires
        i32::MIN <= v <= i32::MAX,
    ensures
        signed_number(signed_decimal(v)) == Some(v),
{
    if v < 0 {
        decimal_reads_back((-v) as nat);
        assert(signed_decimal(v).drop_first() =~= decimal((-v) as nat));
    } else {
        decimal_reads_back(v as nat);
        assert(is_digit(decimal(v as nat)[0]));
    }
}

// ---- Trimming ----

/// Unicode's White_Space property.
pub open spec fn is_white_space(c: char) -> bool {
    let u = c as u32;
    ||| 0x9 <= u <= 0xd
    ||| u == 0x20
    ||| u == 0x85
    ||| u == 0xa0
    ||| u == 0x1680
    ||| 0x2000 <= u <= 0x200a
    ||| u == 0x2028
    ||| u == 0x2029
    ||| u == 0x202f
    ||| u == 0x205f
    ||| u == 0x3000
}

/// Whether a character is white space.
pub fn white_space(c: char) -> (yes: bool)
    ensures
        yes == is_white_space(c),
{
    let u: u32 = c as u32;
    (0x9 <= u && u <= 0xd) || u == 0x20 || u == 0x85 || u == 0xa0 || u == 0x1680 || (0x2000 <= u
        && u <= 0x200a) || u == 0x2028 || u == 0x2029 || u == 0x202f || u == 0x205f || u == 0x3000
}

/// Text without the white space around it.
pub open spec fn trimmed(s: Seq<char>) -> Seq<char>
    decreases s.len(),
{
    if s.len() > 0 && is_white_space(s[0]) {
        trimmed(s.drop_first())
    } else if s.len() > 0 && is_white_space(s.last()) {
        trimmed(s.drop_last())
    } else {
        s
    }
}

/// Where the text without the white space around it begins and ends.
fn trim_bounds(cs: &Vec<char>) -> (bounds: (usize, usize))
    ensures
        bounds.0 <= bounds.1 <= cs@.len(),
        cs@.subrange(bounds.0 as int, bounds.1 as int) == trimmed(cs@),
{
    let mut from: usize = 0;
    let mut to: usize = cs.len();
    assert(cs@.subrange(0, to as int) =~= cs@);
    while from < to && white_space(cs[from])
        invariant
            from <= to <= cs@.len(),
            trimmed(cs@.subrange(from as int, to as int)) == trimmed(cs@),
        decreases to - from,
    {
        assert(cs@.subrange(from as int, to as int).drop_first() =~= cs@.subrange(
            from + 1,
            to as int,
        ));
        from += 1;
    }
    while from < to && white_space(cs[to - 1])
        invariant
            from <= to <= cs@.len(),
            from < to ==> !is_white_space(cs@[from as int]),
            trimmed(cs@.subrange(from as int, to as int)) == trimmed(cs@),
        decreases to - from,
    {
        assert(cs@.subrange(from as int, to as int).drop_last() =~= cs@.subrange(
            from as int,
            to - 1,
        ));
        to -= 1;
    }
    (from, to)
}

/// The unsigned number that a text holds, white space around it aside; 0 for
/// any other text.
pub open spec fn number_or_zero(content: Seq<char>) -> nat {
    match unsigned_number(trimmed(content)) {
        Some(n) => n,
        None => 0,
    }
}

/// Reads the unsigned number that a text holds; 0 if it holds none.
pub fn parse_number_or_zero(content: &str) -> (n: u64)
    ensures
        n == number_or_zero(content@),
{
    let cs = chars_of(content);
    let (from, to) = trim_bounds(&cs);
    match parse_unsigned(&cs, from, to) {
        Some(n) => n,
        None => 0,
    }
}

/// Reads the signed number that a text holds, white space around it aside.
pub fn parse_trimmed_signed(content: &str) -> (n: Option<i32>)
    ensures
        match signed_number(trimmed(content@)) {
            Some(v) => n is Some && n->0 == v,
            None => n is None,
        },
{
    let cs = chars_of(content);
    let (from, to) = trim_bounds(&cs);
    parse_signed(&cs, from, to)
}

// ---- Named values ----

/// ASCII white space: space, tab, line feed, form feed, carriage return.
pub open spec fn is_blank(c: char) -> bool {
    c == ' ' || c == '\t' || c == '\n' || c == '\x0C' || c == '\r'
}

fn blank(c: char) -> (yes: bool)
    ensures
        yes == is_blank(c),
{
    c == ' ' || c == '\t' || c == '\n' || c == '\x0C' || c == '\r'
}

/// How many blanks a text begins with.
pub open spec fn blank_len(s: Seq<char>) -> nat
    decreases s.len(),
{
    if s.len() > 0 && is_blank(s[0]) {
        1 + blank_len(s.drop_first())
    } else {
        0
    }
}

/// How many other characters a text begins with.
pub open spec fn word_len(s: Seq<char>) -> nat
    decreases s.len(),
{
    if s.len() > 0 && !is_blank(s[0]) {
        1 + word_len(s.drop_first())
    } else {
        0
    }
}

/// The first word of a text, blanks in front of it aside; empty if there is none.
pub open spec fn first_word(s: Seq<char>) -> Seq<char> {
    let t = s.skip(blank_len(s) as int);
    t.take(word_len(t) as int)
}

/// What follows the first word of a text.
pub open spec fn after_first_word(s: Seq<char>) -> Seq<char> {
    let t = s.skip(blank_len(s) as int);
    t.skip(word_len(t) as int)
}

/// How many characters stand before the first line feed.
pub open spec fn line_len(s: Seq<char>) -> nat
    decreases s.len(),
{
    if s.len() > 0 && s[0] != '\n' {
        1 + line_len(s.drop_first())
    } else {
        0
    }
}

/// The number that a line of the form `key number` gives to a key.
pub open spec fn value_in_line(line: Seq<char>, key: Seq<char>) -> Option<nat> {
    let word = first_word(line);
    if word.len() > 0 && word == key {
        unsigned_number(first_word(after_first_word(line)))
    } else {
        None
    }
}

/// The number that the first line with one for the key gives to it; 0 if no
/// line does.
pub open spec fn named_value(content: Seq<char>, key: Seq<char>) -> nat
    decreases content.len(),
{
    let n = line_len(content) as int;
    match value_in_line(content.take(n), key) {
        Some(v) => v,
        None => if 0 <= n < content.len() {
            named_value(content.skip(n + 1), key)
        } else {
            0
        },
    }
}

/// The position behind the blanks from `from` on.
fn skip_blanks(cs: &Vec<char>, from: usize, to: usize) -> (at: usize)
    requires
        from <= to <= cs@.len(),
    ensures
        at == from + blank_len(cs@.subrange(from as int, to as int)),
        at <= to,
{
    let mut at: usize = from;
    while at < to && blank(cs[at])
        invariant
            from <= at <= to <= cs@.len(),
            from + blank_len(cs@.subrange(from as int, to as int)) == at + blank_len(
                cs@.subrange(at as int, to as int),
            ),
        decreases to - at,
    {
        assert(cs@.subrange(at as int, to as int).drop_first() =~= cs@.subrange(
            at + 1,
            to as int,
        ));
        at += 1;
    }
    at
}

/// The position behind the word from `from` on.
fn skip_word(cs: &Vec<char>, from: usize, to: usize) -> (at: usize)
    requires
        from <= to <= cs@.len(),
    ensures
        at == from + word_len(cs@.subrange(from as int, to as int)),
        at <= to,
{
    let mut at: usize = from;
    while at < to && !blank(cs[at])
        invariant
            from <= at <= to <= cs@.len(),
            from + word_len(cs@.subrange(from as int, to as int)) == at + word_len(
                cs@.subrange(at as int, to as int),
            ),
        decreases to - at,
    {
        assert(cs@.subrange(at as int, to as int).drop_first() =~= cs@.subrange(
            at + 1,
            to as int,
        ));
        at += 1;
    }
    at
}

/// The position of the next line feed, or the end.
fn line_end(cs: &Vec<char>, from: usize) -> (at: usize)
    requires
        from <= cs@.len(),
    ensures
        at == from + line_len(cs@.skip(from as int)),
        at <= cs@.len(),
{
    let mut at: usize = from;
    while at < cs.len() && cs[at] != '\n'
        invariant
            from <= at <= cs@.len(),
            from + line_len(cs@.skip(from as int)) == at + line_len(cs@.skip(at as int)),
        decreases cs@.len() - at,
    {
        assert(cs@.skip(at as int).drop_first() =~= cs@.skip(at + 1));
        at += 1;
    }
    at
}

/// Whether the characters between two positions are those of `key`.
fn is_key(cs: &Vec<char>, from: usize, to: usize, key: &Vec<char>) -> (yes: bool)
    requires
        from <= to <= cs@.len(),
    ensures
        yes == (cs@.subrange(from as int, to as int) == key@),
{
    let ghost word = cs@.subrange(from as int, to as int);
    if to - from != key.len() {
        return false;
    }
    let mut i: usize = 0;
    while i < key.len()
        invariant
            i <= key@.len(),
            from + key@.len() == to,
            to <= cs@.len(),
            word == cs@.subrange(from as int, to as int),
            forall|j: int| 0 <= j < i ==> word[j] == key@[j],
        decreases key@.len() - i,
    {
        assert(word[i as int] == cs@[from + i]);
        if cs[from + i] != key[i] {
            return false;
        }
        i += 1;
    }
    assert(word =~= key@);
    true
}

/// The number that the line between two positions gives to a key.
fn parse_line(cs: &Vec<char>, from: usize, to: usize, key: &Vec<char>) -> (n: Option<u64>)
    requires
        from <= to <= cs@.len(),
    ensures
        match value_in_line(cs@.subrange(from as int, to as int), key@) {
            Some(v) => n is Some && n->0 == v,
            None => n is None,
        },
{
    let ghost line = cs@.subrange(from as int, to as int);
    let start: usize = skip_blanks(cs, from, to);
    let end: usize = skip_word(cs, start, to);
    proof {
        let t = line.skip(blank_len(line) as int);
        assert(t =~= cs@.subrange(start as int, to as int));
        assert(t.take(word_len(t) as int) =~= cs@.subrange(start as int, end as int));
        assert(t.skip(word_len(t) as int) =~= cs@.subrange(end as int, to as int));
    }
    if start == end || !is_key(cs, start, end, key) {
        return None;
    }
    let start2: usize = skip_blanks(cs, end, to);
    let end2: usize = skip_word(cs, start2, to);
    proof {
        let rest = cs@.subrange(end as int, to as int);
        let t = rest.skip(blank_len(rest) as int);
        assert(t =~= cs@.subrange(start2 as int, to as int));
        assert(t.take(word_len(t) as int) =~= cs@.subrange(start2 as int, end2 as int));
    }
    parse_unsigned(cs, start2, end2)
}

/// Reads the number that a text of `key number` lines gives to a key; 0 if it
/// gives none.
pub fn parse_named_u64(content: &str, key: &str) -> (n: u64)
    ensures
        n == named_value(content@, key@),
{
    let cs = chars_of(content);
    let ks = chars_of(key);
    let mut at: usize = 0;
    assert(cs@.skip(0) =~= cs@);
    loop
        invariant
            at <= cs@.len(),
            cs@ == content@,
            ks@ == key@,
            named_value(content@, key@) == named_value(cs@.skip(at as int), key@),
        decreases cs@.len() - at,
    {
        let end: usize = line_end(&cs, at);
        let ghost rest = cs@.skip(at as int);
        proof {
            assert(rest.take(line_len(rest) as int) =~= cs@.subrange(at as int, end as int));
        }
        match parse_line(&cs, at, end, &ks) {
            Some(n) => {
                return n;
            },
            None => {},
        }
        if end == cs.len() {
            return 0;
        }
        assert(rest.skip(line_len(rest) as int + 1) =~= cs@.skip(end + 1));
        at = end + 1;
    }
}

// ---- Laws ----

/// The digits of a number stand where they belong: counted from the right, the digit
/// at place `k` is the remainder by ten of the number divided by the `k`-th power of
/// ten. There are as many as are needed, so that none of several leads with a zero.
pub proof fn digits_stand_in_their_places(n: nat, k: nat)
    requires
        k < decimal(n).len(),
    ensures
        decimal(n)[decimal(n).len() - 1 - k] as int == 48 + (n as int / pow(10, k)) % 10,
        n < pow(10, decimal(n).len()),
        decimal(n).len() == 1 || n >= pow(10, (decimal(n).len() - 1) as nat),
    decreases n,
{
    broadcast use lemma_pow_positive;

    lemma_pow0(10);
    lemma_pow1(10);
    if n >= 10 {
        let shorter = decimal(n / 10);
        let len = shorter.len();
        assert(decimal(n) == shorter.push(digit_char(n % 10)));
        decimal_reads_back(n / 10);
        digits_stand_in_their_places(n / 10, if k == 0 { 0 } else { (k - 1) as nat });
        lemma_pow_adds(10, 1, len);
        lemma_pow_adds(10, 1, (len - 1) as nat);
        assert(n < 10 * pow(10, len));
        if k > 0 {
            lemma_pow_adds(10, 1, (k - 1) as nat);
            lemma_div_denominator(n as int, 10, pow(10, (k - 1) as nat));
        }
    } else {
        assert(k == 0);
        assert(n as int / pow(10, 0) == n);
    }
}

/// The value of digits, counted from the left: the first one stands for itself times
/// a power of ten, one for each digit that follows.
pub proof fn digits_count_by_their_places(s: Seq<char>)
    requires
        s.len() > 0,
        all_digits(s),
    ensures
        digits_value(s) == (s[0] as int - 48) * pow(10, (s.len() - 1) as nat) + digits_value(
            s.drop_first(),
        ),
        digits_value(Seq::<char>::empty()) == 0,
    decreases s.len(),
{
    lemma_pow0(10);
    if s.len() == 1 {
        assert(s.drop_last() =~= Seq::<char>::empty());
        assert(s.drop_first() =~= Seq::<char>::empty());
        assert(is_digit(s[0]));
    } else {
        let init = s.drop_last();
        assert forall|i: int| 0 <= i < init.len() implies is_digit(#[trigger] init[i]) by {
            assert(is_digit(s[i]));
        }
        digits_count_by_their_places(init);
        assert(init.drop_first() =~= s.drop_first().drop_last());
        let p = pow(10, (s.len() - 2) as nat);
        lemma_pow1(10);
        lemma_pow_adds(10, 1, (s.len() - 2) as nat);
        let d = s[0] as int - 48;
        assert(10 * (d * p) == d * (10 * p)) by (nonlinear_arith);
        assert(is_digit(s.last()));
    }
}

/// Digits are read as the number that they stand for, with or without a plus sign,
/// as long as it has at most 64 bits; no other text is read as a number.
pub proof fn digits_are_read_as_a_number(s: Seq<char>)
    ensures
        s.len() > 0 && all_digits(s) && digits_value(s) <= 0xffff_ffff_ffff_ffff ==> {
            &&& unsigned_number(s) == Some(digits_value(s))
            &&& unsigned_number(seq!['+'] + s) == Some(digits_value(s))
        },
        s.len() == 0 || digits_value(s) > 0xffff_ffff_ffff_ffff ==> {
            &&& !(unsigned_number(seq!['+'] + s) is Some)
            &&& all_digits(s) ==> !(unsigned_number(s) is Some)
        },
        forall|i: int|
            0 <= i < s.len() && !(48 <= (#[trigger] s[i]) as int <= 57) && !(i == 0 && s[i]
                == '+') ==> unsigned_number(s) is None,
{
    assert((seq!['+'] + s).drop_first() =~= s);
    if s.len() > 0 && all_digits(s) {
        assert(is_digit(s[0]));
    }
    assert forall|i: int|
        0 <= i < s.len() && !(48 <= (#[trigger] s[i]) as int <= 57) && !(i == 0 && s[i]
            == '+') implies unsigned_number(s) is None by {
        assert(!is_digit(s[i]));
        if s[0] == '+' {
            assert(s.drop_first()[i - 1] == s[i]);
        }
    }
}

/// A text that begins and ends with a character that is no white space is what is
/// left when the white space around it is taken off; nothing is left of white space.
pub proof fn trimming_takes_off_white_space(before: Seq<char>, s: Seq<char>, after: Seq<char>)
    requires
        forall|i: int| 0 <= i < before.len() ==> is_white_space(#[trigger] before[i]),
        forall|i: int| 0 <= i < after.len() ==> is_white_space(#[trigger] after[i]),
        s.len() > 0,
        !is_white_space(s[0]),
        !is_white_space(s.last()),
    ensures
        trimmed(before + s + after) == s,
        trimmed(before).len() == 0,
    decreases before.len() + after.len(),
{
    let all = before + s + after;
    if before.len() > 0 {
        let rest = before.drop_first();
        assert forall|i: int| 0 <= i < rest.len() implies is_white_space(#[trigger] rest[i]) by {
            assert(is_white_space(before[i + 1]));
        }
        trimming_takes_off_white_space(rest, s, after);
        assert(all[0] == before[0]);
        assert(all.drop_first() =~= rest + s + after);
    } else if after.len() > 0 {
        let rest = after.drop_last();
        assert forall|i: int| 0 <= i < rest.len() implies is_white_space(#[trigger] rest[i]) by {
            assert(is_white_space(after[i]));
        }
        trimming_takes_off_white_space(before, s, rest);
        assert(all[0] == s[0]);
        assert(all.last() == after.last());
        assert(is_white_space(after[after.len() - 1]));
        assert(all.drop_last() =~= before + s + rest);
    } else {
        assert(all =~= s);
        assert(trimmed(before) =~= before);
    }
}

/// A number of up to 64 bits is read back from its digits, whatever white space is
/// around them.
pub proof fn numbers_are_read_back(before: Seq<char>, n: nat, after: Seq<char>)
    requires
        n <= 0xffff_ffff_ffff_ffff,
        forall|i: int| 0 <= i < before.len() ==> is_white_space(#[trigger] before[i]),
        forall|i: int| 0 <= i < after.len() ==> is_white_space(#[trigger] after[i]),
    ensures
        number_or_zero(before + decimal(n) + after) == n,
{
    decimal_reads_back(n);
    let s = decimal(n);
    assert(is_digit(s[0]));
    assert(is_digit(s[s.len() - 1]));
    trimming_takes_off_white_space(before, s, after);
}

/// No blank.
pub open spec fn is_word(s: Seq<char>) -> bool {
    s.len() > 0 && forall|i: int| 0 <= i < s.len() ==> !is_blank(#[trigger] s[i])
}

proof fn lemma_word_is_found(blanks: Seq<char>, word: Seq<char>, rest: Seq<char>)
    requires
        forall|i: int| 0 <= i < blanks.len() ==> is_blank(#[trigger] blanks[i]),
        is_word(word),
        rest.len() == 0 || is_blank(rest[0]),
    ensures
        blank_len(blanks + word + rest) == blanks.len(),
        word_len(word + rest) == word.len(),
        first_word(blanks + word + rest) == word,
        after_first_word(blanks + word + rest) == rest,
{
    lemma_blank_len(blanks, word + rest);
    lemma_word_len(word, rest);
    let s = blanks + word + rest;
    assert(s =~= blanks + (word + rest));
    assert(s.skip(blanks.len() as int) =~= word + rest);
    assert((word + rest).take(word.len() as int) =~= word);
    assert((word + rest).skip(word.len() as int) =~= rest);
}

proof fn lemma_blank_len(blanks: Seq<char>, rest: Seq<char>)
    requires
        forall|i: int| 0 <= i < blanks.len() ==> is_blank(#[trigger] blanks[i]),
        rest.len() > 0 && !is_blank(rest[0]),
    ensures
        blank_len(blanks + rest) == blanks.len(),
    decreases blanks.len(),
{
    let s = blanks + rest;
    if blanks.len() > 0 {
        let shorter = blanks.drop_first();
        assert forall|i: int| 0 <= i < shorter.len() implies is_blank(#[trigger] shorter[i]) by {
            assert(is_blank(blanks[i + 1]));
        }
        lemma_blank_len(shorter, rest);
        assert(s[0] == blanks[0]);
        assert(s.drop_first() =~= shorter + rest);
    } else {
        assert(s =~= rest);
    }
}

proof fn lemma_word_len(word: Seq<char>, rest: Seq<char>)
    requires
        forall|i: int| 0 <= i < word.len() ==> !is_blank(#[trigger] word[i]),
        rest.len() == 0 || is_blank(rest[0]),
    ensures
        word_len(word + rest) == word.len(),
    decreases word.len(),
{
    let s = word + rest;
    if word.len() > 0 {
        let shorter = word.drop_first();
        assert forall|i: int| 0 <= i < shorter.len() implies !is_blank(#[trigger] shorter[i]) by {
            assert(!is_blank(word[i + 1]));
        }
        lemma_word_len(shorter, rest);
        assert(s[0] == word[0]);
        assert(s.drop_first() =~= shorter + rest);
    } else {
        assert(s =~= rest);
    }
}

proof fn lemma_line_len(line: Seq<char>, rest: Seq<char>)
    requires
        forall|i: int| 0 <= i < line.len() ==> #[trigger] line[i] != '\n',
        rest.len() == 0 || rest[0] == '\n',
    ensures
        line_len(line + rest) == line.len(),
    decreases line.len(),
{
    let s = line + rest;
    if line.len() > 0 {
        let shorter = line.drop_first();
        assert forall|i: int| 0 <= i < shorter.len() implies #[trigger] shorter[i] != '\n' by {
            assert(line[i + 1] != '\n');
        }
        lemma_line_len(shorter, rest);
        assert(s[0] == line[0]);
        assert(s.drop_first() =~= shorter + rest);
    } else {
        assert(s =~= rest);
    }
}

/// Blanks, none of which ends a line.
pub open spec fn is_gap(s: Seq<char>) -> bool {
    forall|i: int| 0 <= i < s.len() ==> is_blank(#[trigger] s[i]) && s[i] != '\n'
}

/// No line feed.
pub open spec fn is_one_line(s: Seq<char>) -> bool {
    forall|i: int| 0 <= i < s.len() ==> #[trigger] s[i] != '\n'
}

/// What a line says whose first two words are a key and another word, whatever blanks
/// are before and between them, and whatever follows: if the word is a number, that is
/// the value of the key; if it is not, the line is passed over.
proof fn lemma_two_words(
    lead: Seq<char>,
    key: Seq<char>,
    gap: Seq<char>,
    word: Seq<char>,
    tail: Seq<char>,
    rest: Seq<char>,
)
    requires
        is_gap(lead),
        is_word(key),
        gap.len() > 0,
        is_gap(gap),
        is_word(word),
        tail.len() == 0 || is_blank(tail[0]),
        is_one_line(tail),
        rest.len() == 0 || rest[0] == '\n',
    ensures
        named_value(lead + key + gap + word + tail + rest, key) == match unsigned_number(word) {
            Some(n) => n,
            None => if rest.len() == 0 {
                0
            } else {
                named_value(rest.drop_first(), key)
            },
        },
{
    let line = lead + key + gap + word + tail;
    let all = line + rest;
    assert forall|i: int| 0 <= i < line.len() implies #[trigger] line[i] != '\n' by {
        let k = i - lead.len();
        let g = k - key.len();
        let w = g - gap.len();
        if k < 0 {
            assert(lead[i] != '\n');
        } else if g < 0 {
            assert(!is_blank(key[k]));
        } else if w < 0 {
            assert(gap[g] != '\n');
        } else if w < word.len() {
            assert(!is_blank(word[w]));
        } else {
            assert(tail[w - word.len()] != '\n');
        }
    }
    lemma_line_len(line, rest);
    assert(all.take(line.len() as int) =~= line);
    assert(line =~= lead + key + (gap + word + tail));
    assert(is_blank(gap[0]));
    lemma_word_is_found(lead, key, gap + word + tail);
    lemma_word_is_found(gap, word, tail);
    if rest.len() > 0 {
        assert(all.skip(line.len() as int + 1) =~= rest.drop_first());
    }
}

/// A line of a key and a number gives the key that number, whatever blanks are before
/// and between them, whatever else follows in the line, and wherever the text goes on
/// after it.
pub proof fn a_line_gives_its_key_a_number(
    lead: Seq<char>,
    key: Seq<char>,
    gap: Seq<char>,
    n: nat,
    tail: Seq<char>,
    rest: Seq<char>,
)
    requires
        is_gap(lead),
        is_word(key),
        gap.len() > 0,
        is_gap(gap),
        n <= 0xffff_ffff_ffff_ffff,
        tail.len() == 0 || is_blank(tail[0]),
        is_one_line(tail),
        rest.len() == 0 || rest[0] == '\n',
    ensures
        named_value(lead + key + gap + decimal(n) + tail + rest, key) == n,
{
    decimal_reads_back(n);
    let digits = decimal(n);
    assert forall|i: int| 0 <= i < digits.len() implies !is_blank(#[trigger] digits[i]) by {
        assert(is_digit(digits[i]));
    }
    assert(is_digit(digits[0]));
    lemma_two_words(lead, key, gap, digits, tail, rest);
}

/// A line that gives its key no number is passed over.
pub proof fn lines_without_a_number_are_passed_over(
    lead: Seq<char>,
    key: Seq<char>,
    gap: Seq<char>,
    word: Seq<char>,
    tail: Seq<char>,
    rest: Seq<char>,
)
    requires
        is_gap(lead),
        is_word(key),
        gap.len() > 0,
        is_gap(gap),
        is_word(word),
        unsigned_number(word) is None,
        tail.len() == 0 || is_blank(tail[0]),
        is_one_line(tail),
    ensures
        named_value(lead + key + gap + word + tail + (seq!['\n'] + rest), key) == named_value(
            rest,
            key,
        ),
{
    lemma_two_words(lead, key, gap, word, tail, seq!['\n'] + rest);
    assert((seq!['\n'] + rest).drop_first() =~= rest);
}

/// The characters between words are space, tab, line feed, form feed and carriage
/// return, and each of them counts as white space.
pub proof fn what_is_blank(c: char)
    ensures
        is_blank(c) <==> c as int == 32 || c as int == 9 || c as int == 10 || c as int == 12
            || c as int == 13,
        is_blank(c) ==> is_white_space(c),
        is_digit(c) <==> 48 <= c as int <= 57,
        is_digit(c) ==> !is_blank(c) && !is_white_space(c),
{
}

/// Digits are read as a signed number, with a plus sign or none as they stand, with a
/// minus sign as the negative of it, as long as it has at most 32 bits; no other text
/// is read as one.
pub proof fn digits_are_read_as_a_signed_number(s: Seq<char>)
    ensures
        s.len() > 0 && all_digits(s) && digits_value(s) <= 0x7fff_ffff ==> {
            &&& signed_number(s) == Some(digits_value(s) as int)
            &&& signed_number(seq!['+'] + s) == Some(digits_value(s) as int)
        },
        s.len() > 0 && all_digits(s) && digits_value(s) <= 0x8000_0000 ==> signed_number(
            seq!['-'] + s,
        ) == Some(-(digits_value(s) as int)),
        s.len() > 0 && all_digits(s) && digits_value(s) > 0x7fff_ffff ==> {
            &&& signed_number(s) is None
            &&& signed_number(seq!['+'] + s) is None
        },
        s.len() > 0 && all_digits(s) && digits_value(s) > 0x8000_0000 ==> signed_number(
            seq!['-'] + s,
        ) is None,
        s.len() == 0 ==> signed_number(s) is None && signed_number(seq!['+'] + s) is None
            && signed_number(seq!['-'] + s) is None,
        forall|i: int|
            0 <= i < s.len() && !(48 <= (#[trigger] s[i]) as int <= 57) && !(i == 0 && (s[i] == '+'
                || s[i] == '-')) ==> signed_number(s) is None,
{
    assert((seq!['+'] + s).drop_first() =~= s);
    assert((seq!['-'] + s).drop_first() =~= s);
    if s.len() > 0 && all_digits(s) {
        assert(is_digit(s[0]));
    }
    assert forall|i: int|
        0 <= i < s.len() && !(48 <= (#[trigger] s[i]) as int <= 57) && !(i == 0 && (s[i] == '+'
            || s[i] == '-')) implies signed_number(s) is None by {
        assert(!is_digit(s[i]));
        if i > 0 {
            assert(s.drop_first()[i - 1] == s[i]);
        }
    }
}

/// A line whose first word is another one is passed over.
pub proof fn lines_of_other_keys_are_passed_over(
    other: Seq<char>,
    more: Seq<char>,
    rest: Seq<char>,
    key: Seq<char>,
)
    requires
        is_word(other),
        other != key,
        forall|i: int| 0 <= i < more.len() ==> #[trigger] more[i] != '\n',
    ensures
        named_value(other + seq![' '] + more + seq!['\n'] + rest, key) == named_value(rest, key),
        named_value(other + seq![' '] + more, key) == 0,
        named_value(Seq::<char>::empty(), key) == 0,
{
    let line = other + seq![' '] + more;
    let tail = seq!['\n'] + rest;
    let all = line + tail;
    assert(other + seq![' '] + more + seq!['\n'] + rest =~= all);
    assert forall|i: int| 0 <= i < line.len() implies #[trigger] line[i] != '\n' by {
        if i < other.len() {
            assert(!is_blank(other[i]));
        } else if i > other.len() {
            assert(more[i - other.len() - 1] != '\n');
        }
    }
    lemma_line_len(line, tail);
    assert(all.take(line.len() as int) =~= line);
    assert(all.skip(line.len() as int + 1) =~= rest);
    let none = Seq::<char>::empty();
    assert(line =~= none + other + (seq![' '] + more));
    lemma_word_is_found(none, other, seq![' '] + more);
    lemma_line_len(line, none);
    assert(line + none =~= line);
    assert(line.take(line.len() as int) =~= line);
    lemma_line_len(none, none);
    assert(none + none =~= none);
    assert(none.take(0) =~= none);
    assert(first_word(none).len() == 0);
}

/// A text that holds no number, white space around it aside, counts as zero, and one
/// that holds a number as that number; of nothing, nothing is read.
pub proof fn what_is_no_number_is_zero(s: Seq<char>)
    ensures
        unsigned_number(trimmed(s)) is None ==> number_or_zero(s) == 0,
        unsigned_number(trimmed(s)) is Some ==> number_or_zero(s) == unsigned_number(
            trimmed(s),
        )->0,
        number_or_zero(Seq::<char>::empty()) == 0,
{
    let none = Seq::<char>::empty();
    assert(trimmed(none) == none);
}

} // verus!
